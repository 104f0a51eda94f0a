//! Why a program did not complete, as the model is told.
use vstd::prelude::*;
use vstd::string::StringExecFns;
use crate::json::{quote, quoted, Json};
use crate::text::{contains, contains_text, decimal, decimal_text, number_of, opt_view, parse_u64, same, text, to_chars, views};

verus! {

/// What kind of failure a program met.
#[derive(Clone, Copy, Debug, PartialEq, Eq, Structural)]
pub enum PtcDiagnosticKind {
    Syntax,
    Runtime,
    UnsupportedSyntax,
    ToolBudget,
    ProcessBudget,
    InstructionBudget,
    WallTime,
    Cancelled,
}

impl PtcDiagnosticKind {
    /// The name of the kind.
    pub open spec fn name(self) -> Seq<char> {
        match self {
            PtcDiagnosticKind::Syntax => "syntax"@,
            PtcDiagnosticKind::Runtime => "runtime"@,
            PtcDiagnosticKind::UnsupportedSyntax => "unsupported_syntax"@,
            PtcDiagnosticKind::ToolBudget => "tool_budget"@,
            PtcDiagnosticKind::ProcessBudget => "process_budget"@,
            PtcDiagnosticKind::InstructionBudget => "instruction_budget"@,
            PtcDiagnosticKind::WallTime => "wall_time"@,
            PtcDiagnosticKind::Cancelled => "cancelled"@,
        }
    }

    /// The name of the kind.
    pub fn label(self) -> (r: &'static str)
        ensures
            r@ == self.name(),
    {
        match self {
            PtcDiagnosticKind::Syntax => "syntax",
            PtcDiagnosticKind::Runtime => "runtime",
            PtcDiagnosticKind::UnsupportedSyntax => "unsupported_syntax",
            PtcDiagnosticKind::ToolBudget => "tool_budget",
            PtcDiagnosticKind::ProcessBudget => "process_budget",
            PtcDiagnosticKind::InstructionBudget => "instruction_budget",
            PtcDiagnosticKind::WallTime => "wall_time",
            PtcDiagnosticKind::Cancelled => "cancelled",
        }
    }
}

/// A failure of a program.
#[derive(Debug, PartialEq, Eq)]
pub struct PtcDiagnostic {
    pub kind: PtcDiagnosticKind,
    pub message: String,
    pub line: Option<u32>,
    pub column: Option<u32>,
    pub hint: Option<String>,
}

impl Clone for PtcDiagnostic {
    fn clone(&self) -> (r: Self)
        ensures
            r == *self,
    {
        PtcDiagnostic {
            kind: self.kind,
            message: self.message.clone(),
            line: self.line,
            column: self.column,
            hint: crate::identity::copy_text(&self.hint),
        }
    }
}

/// A number as JSON has it; `null` for none.
pub open spec fn number_json(n: Option<u32>) -> Seq<char> {
    match n {
        Some(n) => decimal(n as nat),
        None => "null"@,
    }
}

/// A text as JSON has it; `null` for none.
pub open spec fn text_json(s: Option<Seq<char>>) -> Seq<char> {
    match s {
        Some(s) => quoted(s),
        None => "null"@,
    }
}

impl PtcDiagnostic {
    /// The failure as the value of the program.
    pub open spec fn json(self) -> Seq<char> {
        "{\"ptcError\":{\"column\":"@ + number_json(self.column) + ",\"hint\":"@ + text_json(
            opt_view(self.hint),
        ) + ",\"kind\":"@ + quoted(self.kind.name()) + ",\"line\":"@ + number_json(self.line)
            + ",\"message\":"@ + quoted(self.message@) + "}}"@
    }

    /// The failure as the value of the program.
    pub fn to_json(&self) -> (r: Json)
        ensures
            r.text@ == self.json(),
    {
        let mut s = text("{\"ptcError\":{\"column\":");
        s.append(number_text(self.column).as_str());
        s.append(",\"hint\":");
        match &self.hint {
            Some(hint) => s.append(quote(hint.as_str()).as_str()),
            None => s.append("null"),
        }
        s.append(",\"kind\":");
        s.append(quote(self.kind.label()).as_str());
        s.append(",\"line\":");
        s.append(number_text(self.line).as_str());
        s.append(",\"message\":");
        s.append(quote(self.message.as_str()).as_str());
        s.append("}}");
        Json { text: s }
    }
}

fn number_text(n: Option<u32>) -> (r: String)
    ensures
        r@ == number_json(n),
{
    match n {
        Some(n) => decimal_text(n as u64),
        None => text("null"),
    }
}

/// A failure of which only the kind and the message are known.
pub fn diagnostic(kind: PtcDiagnosticKind, message: String) -> (r: PtcDiagnostic)
    ensures
        r == (PtcDiagnostic { kind, message, line: None, column: None, hint: None }),
{
    PtcDiagnostic { kind, message, line: None, column: None, hint: None }
}

/// A character with an upper-case letter of the ASCII range made lower-case.
pub open spec fn lower(c: char) -> char {
    if 'A' <= c <= 'Z' {
        (c as u32 + 32) as char
    } else {
        c
    }
}

/// A text with the upper-case letters of the ASCII range made lower-case.
pub open spec fn lowered(s: Seq<char>) -> Seq<char> {
    s.map_values(|c: char| lower(c))
}

fn lower_char(c: char) -> (r: char)
    ensures
        r == lower(c),
{
    match c {
        'A' => 'a',
        'B' => 'b',
        'C' => 'c',
        'D' => 'd',
        'E' => 'e',
        'F' => 'f',
        'G' => 'g',
        'H' => 'h',
        'I' => 'i',
        'J' => 'j',
        'K' => 'k',
        'L' => 'l',
        'M' => 'm',
        'N' => 'n',
        'O' => 'o',
        'P' => 'p',
        'Q' => 'q',
        'R' => 'r',
        'S' => 's',
        'T' => 't',
        'U' => 'u',
        'V' => 'v',
        'W' => 'w',
        'X' => 'x',
        'Y' => 'y',
        'Z' => 'z',
        _ => c,
    }
}

/// A text with the upper-case letters of the ASCII range made lower-case.
pub fn lower_text(s: &str) -> (r: String)
    ensures
        r@ == lowered(s@),
{
    let chars = to_chars(s);
    let mut out = String::new();
    let mut i: usize = 0;
    while i < chars.len()
        invariant
            i <= chars.len(),
            chars@ == s@,
            out@ == lowered(s@.take(i as int)),
        decreases chars.len() - i,
    {
        out.push(lower_char(chars[i]));
        proof {
            assert(lowered(s@.take(i + 1)) =~= lowered(s@.take(i as int)).push(lower(s@[i as int])));
        }
        i = i + 1;
    }
    proof {
        assert(s@.take(i as int) =~= s@);
    }
    out
}

/// Whether a character is a decimal digit.
pub open spec fn is_digit(c: char) -> bool {
    '0' <= c <= '9'
}

/// Whether a character may stand in an identifier of the ASCII range.
pub open spec fn is_word_char(c: char) -> bool {
    is_digit(c) || 'a' <= c <= 'z' || 'A' <= c <= 'Z' || c == '_'
}

/// Whether a character belongs to what is looked for: digits, or words.
pub open spec fn belongs(c: char, digits: bool) -> bool {
    if digits {
        is_digit(c)
    } else {
        is_word_char(c)
    }
}

/// A text cut at every character that does not belong.
pub open spec fn pieces(s: Seq<char>, digits: bool) -> Seq<Seq<char>>
    decreases s.len(),
{
    if s.len() == 0 {
        seq![Seq::empty()]
    } else {
        let init = pieces(s.drop_last(), digits);
        if belongs(s.last(), digits) {
            init.drop_last().push(init.last().push(s.last()))
        } else {
            init.push(Seq::empty())
        }
    }
}

/// A text cut at every character that does not belong.
fn cut(s: &str, digits: bool) -> (r: Vec<String>)
    ensures
        views(r@) == pieces(s@, digits),
{
    let chars = to_chars(s);
    let mut out: Vec<String> = Vec::new();
    let mut current = String::new();
    let mut i: usize = 0;
    proof {
        reveal_with_fuel(pieces, 2);
        assert(s@.take(0) =~= Seq::<char>::empty());
        assert(views(out@).push(current@) =~= pieces(s@.take(0), digits));
    }
    while i < chars.len()
        invariant
            i <= chars.len(),
            chars@ == s@,
            views(out@).push(current@) == pieces(s@.take(i as int), digits),
        decreases chars.len() - i,
    {
        let c = chars[i];
        let ghost before = out@;
        let ghost held = current@;
        let ghost init = pieces(s@.take(i as int), digits);
        proof {
            assert(s@.take(i + 1).drop_last() =~= s@.take(i as int));
            assert(s@.take(i + 1).last() == c);
            assert(init.drop_last() =~= views(before));
            assert(init.last() == held);
        }
        let keep = (c >= '0' && c <= '9') || (!digits && ((c >= 'a' && c <= 'z') || (c >= 'A' && c
            <= 'Z') || c == '_'));
        if keep {
            current.push(c);
        } else {
            out.push(current);
            current = String::new();
            proof {
                assert(views(out@) =~= views(before).push(held));
                assert(views(out@).push(current@) =~= init.push(Seq::empty()));
            }
        }
        i = i + 1;
    }
    proof {
        assert(s@.take(i as int) =~= s@);
    }
    let ghost before = out@;
    let ghost held = current@;
    out.push(current);
    proof {
        assert(views(out@) =~= views(before).push(held));
    }
    out
}

/// Whether a program declares something with `let` or `const`.
pub open spec fn declares_lexically(program: Seq<char>) -> bool {
    pieces(program, false).contains("let"@) || pieces(program, false).contains("const"@)
}

/// Whether a program declares something with `let` or `const`.
pub fn contains_unsupported_lexical_declaration(program: &str) -> (r: bool)
    ensures
        r == declares_lexically(program@),
{
    let words = cut(program, false);
    let ghost all = pieces(program@, false);
    let mut i: usize = 0;
    while i < words.len()
        invariant
            i <= words.len(),
            views(words@) == all,
            all == pieces(program@, false),
            forall|k: int| 0 <= k < i ==> #[trigger] all[k] != "let"@ && all[k] != "const"@,
        decreases words.len() - i,
    {
        proof {
            assert(all[i as int] == words@[i as int]@);
        }
        if same(words[i].as_str(), "let") || same(words[i].as_str(), "const") {
            return true;
        }
        i = i + 1;
    }
    false
}

/// The number that a piece of a message stands for, where it fits.
pub open spec fn piece_number(piece: Seq<char>) -> Option<u32> {
    match number_of(piece) {
        Ok(n) => if n <= u32::MAX {
            Some(n as u32)
        } else {
            None
        },
        Err(_) => None,
    }
}

/// The numbers in a message, in order.
pub open spec fn numbers_of(parts: Seq<Seq<char>>) -> Seq<u32>
    decreases parts.len(),
{
    if parts.len() == 0 {
        Seq::empty()
    } else {
        match piece_number(parts.last()) {
            Some(n) => numbers_of(parts.drop_last()).push(n),
            None => numbers_of(parts.drop_last()),
        }
    }
}

/// The numbers in a message, in order.
pub fn numbers_in(message: &str) -> (r: Vec<u32>)
    ensures
        r@ == numbers_of(pieces(message@, true)),
{
    let parts = cut(message, true);
    let ghost all = pieces(message@, true);
    let mut out: Vec<u32> = Vec::new();
    let mut i: usize = 0;
    while i < parts.len()
        invariant
            i <= parts.len(),
            views(parts@) == all,
            out@ == numbers_of(all.take(i as int)),
        decreases parts.len() - i,
    {
        proof {
            assert(all.take(i + 1).drop_last() =~= all.take(i as int));
            assert(all.take(i + 1).last() == parts@[i as int]@);
        }
        match parse_u64(parts[i].as_str()) {
            Ok(n) => {
                if n <= u32::MAX as u64 {
                    out.push(n as u32);
                }
            },
            Err(_) => {},
        }
        i = i + 1;
    }
    proof {
        assert(all.take(i as int) =~= all);
    }
    out
}

/// What is known of a run when its program threw.
#[derive(Clone, Copy, Debug, PartialEq, Eq)]
pub struct RunFacts {
    pub cancelled: bool,
    pub past_deadline: bool,
    pub instructions_exceeded: bool,
}

/// The kind of a failure: what is known of the run comes first, then what the
/// message tells, then the program's own text.
pub open spec fn kind_of(program: Seq<char>, message: Seq<char>, facts: RunFacts) -> PtcDiagnosticKind {
    let low = lowered(message);
    if facts.cancelled || contains(low, "cancelled"@) {
        PtcDiagnosticKind::Cancelled
    } else if facts.past_deadline {
        PtcDiagnosticKind::WallTime
    } else if facts.instructions_exceeded {
        PtcDiagnosticKind::InstructionBudget
    } else if contains(low, "tool call budget"@) {
        PtcDiagnosticKind::ToolBudget
    } else if contains(low, "process budget"@) {
        PtcDiagnosticKind::ProcessBudget
    } else if declares_lexically(program) || contains(low, "let"@) || contains(low, "const"@)
        || contains(low, "lexical"@) {
        PtcDiagnosticKind::UnsupportedSyntax
    } else if contains(low, "syntax"@) || contains(low, "parse"@) {
        PtcDiagnosticKind::Syntax
    } else {
        PtcDiagnosticKind::Runtime
    }
}

/// The number at a place, where there is one.
pub open spec fn nth(numbers: Seq<u32>, i: int) -> Option<u32> {
    if 0 <= i < numbers.len() {
        Some(numbers[i])
    } else {
        None
    }
}

fn kind_text(program: &str, message: &str, facts: RunFacts) -> (r: PtcDiagnosticKind)
    ensures
        r == kind_of(program@, message@, facts),
{
    let low = lower_text(message);
    let l = low.as_str();
    if facts.cancelled || contains_text(l, "cancelled") {
        PtcDiagnosticKind::Cancelled
    } else if facts.past_deadline {
        PtcDiagnosticKind::WallTime
    } else if facts.instructions_exceeded {
        PtcDiagnosticKind::InstructionBudget
    } else if contains_text(l, "tool call budget") {
        PtcDiagnosticKind::ToolBudget
    } else if contains_text(l, "process budget") {
        PtcDiagnosticKind::ProcessBudget
    } else if contains_unsupported_lexical_declaration(program) || contains_text(l, "let")
        || contains_text(l, "const") || contains_text(l, "lexical") {
        PtcDiagnosticKind::UnsupportedSyntax
    } else if contains_text(l, "syntax") || contains_text(l, "parse") {
        PtcDiagnosticKind::Syntax
    } else {
        PtcDiagnosticKind::Runtime
    }
}

/// What is said beside a failure of a kind.
pub open spec fn hint_of(kind: PtcDiagnosticKind) -> Option<Seq<char>> {
    if kind is UnsupportedSyntax {
        Some("MicroQuickJS PTC uses var; replace let/const with var"@)
    } else {
        None
    }
}

/// What a program that threw is told. The first two numbers of the message are
/// taken for line and column.
pub fn classify_diagnostic(program: &str, message: &str, facts: RunFacts) -> (r: PtcDiagnostic)
    ensures
        r.kind == kind_of(program@, message@, facts),
        r.message@ == message@,
        r.line == nth(numbers_of(pieces(message@, true)), 0),
        r.column == nth(numbers_of(pieces(message@, true)), 1),
        opt_view(r.hint) == hint_of(r.kind),
{
    let kind = kind_text(program, message, facts);
    let hint = match kind {
        PtcDiagnosticKind::UnsupportedSyntax => Some(
            text("MicroQuickJS PTC uses var; replace let/const with var"),
        ),
        _ => None,
    };
    let numbers = numbers_in(message);
    let line = if numbers.len() > 0 {
        Some(numbers[0])
    } else {
        None
    };
    let column = if numbers.len() > 1 {
        Some(numbers[1])
    } else {
        None
    };
    PtcDiagnostic { kind, message: text(message), line, column, hint }
}

} // verus!
