//! What the runtime knows of the script engine: its immediate values, and the
//! messages that cross its border.
use vstd::prelude::*;
use vstd::string::StringExecFns;
use crate::text::{text, to_chars};

verus! {

/// The interpreter polls the interrupt handler roughly every this many bytecode
/// dispatches.
pub const JS_INTERRUPT_COUNTER_INIT: u64 = 10000;

/// Object classes of thrown errors.
pub const JS_CLASS_RANGE_ERROR: u32 = 11;

pub const JS_CLASS_TYPE_ERROR: u32 = 14;

pub const JS_CLASS_INTERNAL_ERROR: u32 = 16;

/// Makes an evaluation return the value of its last statement.
pub const JS_EVAL_RETVAL: i32 = 1;

/// Place of the closure entry in the engine's function table.
pub const JS_CFUNCTION_MH_CLOSURE: i32 = 1;

/// Heap of a machine whose owner asks for none in particular.
pub const DEFAULT_HEAP: usize = 4194304;

/// Tagged script value: an immediate, or a place in the engine's heap.
#[derive(Clone, Copy, Debug, PartialEq, Eq, Structural)]
pub struct JSValue(pub u64);

impl JSValue {
    /// What a function returns after it threw.
    pub fn exception() -> (r: JSValue)
        ensures
            r.0 == 15,
    {
        JSValue(15)
    }

    /// The value `null`.
    pub fn null() -> (r: JSValue)
        ensures
            r.0 == 7,
    {
        JSValue(7)
    }

    /// The value `undefined`.
    pub fn undefined() -> (r: JSValue)
        ensures
            r.0 == 11,
    {
        JSValue(11)
    }

    /// A truth value.
    pub fn bool(b: bool) -> (r: JSValue)
        ensures
            r.0 == if b {
                35u64
            } else {
                3u64
            },
    {
        if b {
            JSValue(35)
        } else {
            JSValue(3)
        }
    }

    /// Whether the value says that something was thrown.
    pub fn is_exception(self) -> (r: bool)
        ensures
            r == (self.0 == 15),
    {
        self.0 == 15
    }
}

/// Why the engine did not do what it was asked.
#[derive(Clone, Debug, PartialEq, Eq)]
pub enum VmError {
    /// A script exception with the message of the thrown value.
    Exception(String),
    /// The engine could not allocate.
    OutOfMemory,
    /// The machine could not be created.
    InitFailed,
}

impl VmError {
    /// The message of the error.
    pub open spec fn text(self) -> Seq<char> {
        match self {
            VmError::Exception(message) => "js error: "@ + message@,
            VmError::OutOfMemory => "js out of memory"@,
            VmError::InitFailed => "vm init failed"@,
        }
    }

    /// The message of the error.
    pub fn message(&self) -> (r: String)
        ensures
            r@ == self.text(),
    {
        match self {
            VmError::Exception(message) => {
                let mut s = text("js error: ");
                s.append(message.as_str());
                s
            },
            VmError::OutOfMemory => text("js out of memory"),
            VmError::InitFailed => text("vm init failed"),
        }
    }
}

/// The text of a thrown value: nothing is known of `null` and `undefined`; else
/// its `message`, where that reads as a text that is not empty; else the value
/// itself as a text, where it has one.
pub open spec fn thrown_text(
    thrown: JSValue,
    message: Option<Seq<char>>,
    whole: Option<Seq<char>>,
) -> Seq<char> {
    if thrown.0 == 7 || thrown.0 == 11 {
        "unknown exception"@
    } else if message is Some && message->0.len() > 0 {
        message->0
    } else if whole is Some {
        whole->0
    } else {
        "unknown exception"@
    }
}

/// The exception that stands for a thrown value.
pub fn take_exception(thrown: JSValue, message: Option<String>, whole: Option<String>) -> (r:
    VmError)
    ensures
        r matches VmError::Exception(m) && m@ == thrown_text(
            thrown,
            crate::text::opt_view(message),
            crate::text::opt_view(whole),
        ),
{
    if thrown.0 == 7 || thrown.0 == 11 {
        return VmError::Exception(text("unknown exception"));
    }
    match message {
        Some(m) => {
            if !m.as_str().is_empty() {
                return VmError::Exception(m);
            }
        },
        None => {},
    }
    match whole {
        Some(m) => VmError::Exception(m),
        None => VmError::Exception(text("unknown exception")),
    }
}

/// A text with every percent sign doubled.
pub open spec fn percent_doubled(s: Seq<char>) -> Seq<char>
    decreases s.len(),
{
    if s.len() == 0 {
        Seq::empty()
    } else if s.last() == '%' {
        percent_doubled(s.drop_last()).push('%').push('%')
    } else {
        percent_doubled(s.drop_last()).push(s.last())
    }
}

/// The engine formats the message of a thrown error, so percent signs are
/// doubled; the message ends in a zero.
pub fn throw_format(message: &str) -> (r: String)
    ensures
        r@ == percent_doubled(message@).push('\0'),
{
    let chars = to_chars(message);
    let mut out = String::new();
    let mut i: usize = 0;
    while i < chars.len()
        invariant
            i <= chars.len(),
            chars@ == message@,
            out@ == percent_doubled(message@.take(i as int)),
        decreases chars.len() - i,
    {
        proof {
            assert(message@.take(i + 1).drop_last() =~= message@.take(i as int));
            assert(message@.take(i + 1).last() == message@[i as int]);
        }
        if chars[i] == '%' {
            out.push('%');
        }
        out.push(chars[i]);
        i = i + 1;
    }
    proof {
        assert(message@.take(i as int) =~= message@);
    }
    out.push('\0');
    out
}

/// The characters that reach the program: pairs of percent signs read as one.
pub open spec fn formatted(s: Seq<char>) -> Seq<char>
    decreases s.len(),
{
    if s.len() == 0 {
        Seq::empty()
    } else if s.len() >= 2 && s[0] == '%' && s[1] == '%' {
        seq!['%'] + formatted(s.skip(2))
    } else {
        seq![s[0]] + formatted(s.skip(1))
    }
}

proof fn lemma_doubled_prepend(c: char, s: Seq<char>)
    ensures
        percent_doubled(seq![c] + s) == (if c == '%' {
            seq!['%', '%']
        } else {
            seq![c]
        }) + percent_doubled(s),
    decreases s.len(),
{
    let head = if c == '%' {
        seq!['%', '%']
    } else {
        seq![c]
    };
    if s.len() == 0 {
        assert((seq![c] + s).drop_last() =~= Seq::<char>::empty());
        assert((seq![c] + s).last() == c);
        reveal_with_fuel(percent_doubled, 2);
        assert(percent_doubled(seq![c] + s) =~= head + percent_doubled(s));
    } else {
        let all = seq![c] + s;
        assert(all.drop_last() =~= seq![c] + s.drop_last());
        assert(all.last() == s.last());
        lemma_doubled_prepend(c, s.drop_last());
        assert(percent_doubled(all) =~= head + percent_doubled(s));
    }
}

/// The message of a thrown error reaches the program as it was given, whatever
/// percent signs it holds.
pub proof fn law_thrown_messages_survive_formatting(s: Seq<char>)
    ensures
        formatted(percent_doubled(s)) == s,
    decreases s.len(),
{
    if s.len() == 0 {
        assert(formatted(percent_doubled(s)) =~= s);
    } else {
        let rest = s.skip(1);
        assert(s =~= seq![s[0]] + rest);
        lemma_doubled_prepend(s[0], rest);
        law_thrown_messages_survive_formatting(rest);
        let d = percent_doubled(s);
        if s[0] == '%' {
            assert(d =~= seq!['%', '%'] + percent_doubled(rest));
            assert(d.skip(2) =~= percent_doubled(rest));
        } else {
            assert(d =~= seq![s[0]] + percent_doubled(rest));
            assert(d.skip(1) =~= percent_doubled(rest));
        }
        assert(formatted(d) =~= seq![s[0]] + rest);
    }
}

} // verus!
