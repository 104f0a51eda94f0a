//! Script values as plain data, and their bounded conversion into JSON.
use vstd::prelude::*;
use vstd::string::StringExecFns;
use crate::json::{json_error, json_value, parse_error, quote, quoted, value_at, Json};
use crate::text::{byte_count, byte_len, join, joined, text, views};

verus! {

/// The deepest nesting that is converted.
pub const MAX_DEPTH: usize = 24;

/// The longest array that is converted.
pub const MAX_ITEMS: usize = 100000;

/// A script value that is neither an array nor an object. A number is held as
/// the text that JSON has for it.
#[derive(Clone, Debug, PartialEq, Eq)]
pub enum Scalar {
    Null,
    Bool(bool),
    Number(String),
    Text(String),
}

/// A script value. An object is held as the text that the engine's own
/// stringifier gives for it, where it gives one.
#[derive(Debug, PartialEq, Eq)]
pub enum Js {
    Scalar(Scalar),
    Array(Vec<Js>),
    Object(Option<String>),
}

impl Scalar {
    /// The JSON text of the value.
    pub open spec fn json(self) -> Seq<char> {
        match self {
            Scalar::Null => "null"@,
            Scalar::Bool(true) => "true"@,
            Scalar::Bool(false) => "false"@,
            Scalar::Number(printed) => printed@,
            Scalar::Text(s) => quoted(s@),
        }
    }

    /// What the value counts against the bound of a conversion.
    pub open spec fn weight(self) -> nat {
        match self {
            Scalar::Text(s) => byte_len(s@) + 2,
            _ => 8,
        }
    }

    /// The JSON text of the value.
    pub fn json_text(&self) -> (r: String)
        ensures
            r@ == self.json(),
    {
        match self {
            Scalar::Null => text("null"),
            Scalar::Bool(b) => if *b {
                text("true")
            } else {
                text("false")
            },
            Scalar::Number(printed) => printed.clone(),
            Scalar::Text(s) => quote(s.as_str()),
        }
    }
}

/// What is left of a bound after something was counted against it.
pub open spec fn left_of(budget: nat, weight: nat) -> nat {
    if budget >= weight {
        (budget - weight) as nat
    } else {
        0
    }
}

/// What is left of a bound after a value was counted against it.
pub fn charged(budget: usize, value: &Scalar) -> (r: usize)
    ensures
        r == left_of(budget as nat, value.weight()),
{
    match value {
        Scalar::Text(s) => {
            let bytes: usize = byte_count(s.as_str());
            budget.saturating_sub(bytes).saturating_sub(2)
        },
        _ => budget.saturating_sub(8),
    }
}

/// The JSON text of an object, from the text the engine gave for it.
pub open spec fn object_json(printed: Option<String>) -> Option<Seq<char>> {
    match printed {
        None => None,
        Some(s) => if json_error(s@) is None {
            json_value(s@, ""@)
        } else {
            None
        },
    }
}

/// The JSON text of a value, and what the conversion left of its bound. Nothing
/// comes of a value nested too deep, or of an object the engine could not print.
pub open spec fn converted(value: Js, budget: nat, depth: nat) -> (Option<Seq<char>>, nat)
    decreases 26 - depth, 1nat, 0nat,
{
    if depth > MAX_DEPTH {
        (None, budget)
    } else {
        match value {
            Js::Scalar(scalar) => (Some(scalar.json()), left_of(budget, scalar.weight())),
            Js::Array(items) => {
                let n = if items@.len() <= MAX_ITEMS {
                    items@.len()
                } else {
                    MAX_ITEMS as nat
                };
                let (parts, left) = elements(items@.take(n as int), 0, budget, depth);
                (Some("["@ + joined(parts, ","@) + "]"@), left)
            },
            Js::Object(printed) => (object_json(printed), budget),
        }
    }
}

/// The JSON texts of the elements from a place on. Where the bound is used up, a
/// marker stands for the rest.
pub open spec fn elements(items: Seq<Js>, i: nat, budget: nat, depth: nat) -> (Seq<Seq<char>>, nat)
    decreases 26 - depth, 0nat, items.len() - i,
{
    if i >= items.len() || depth > MAX_DEPTH {
        (Seq::empty(), budget)
    } else if budget == 0 {
        (seq!["{\"truncated\":true}"@], 0)
    } else {
        let (first, left) = converted(items[i as int], budget, depth + 1);
        let part = match first {
            Some(json) => json,
            None => "null"@,
        };
        let (rest, remaining) = elements(items, i + 1, left, depth);
        (seq![part] + rest, remaining)
    }
}

/// Converts a value within a bound.
pub fn conv(value: &Js, budget: &mut usize, depth: usize) -> (r: Option<String>)
    requires
        depth <= MAX_DEPTH + 1,
    ensures
        (crate::text::opt_view(r), *final(budget) as nat) == converted(
            *value,
            *old(budget) as nat,
            depth as nat,
        ),
    decreases 26 - depth, 1int, 0int,
{
    if depth > MAX_DEPTH {
        return None;
    }
    match value {
        Js::Scalar(scalar) => {
            *budget = charged(*budget, scalar);
            Some(scalar.json_text())
        },
        Js::Array(items) => {
            let n: usize = if items.len() <= MAX_ITEMS {
                items.len()
            } else {
                MAX_ITEMS
            };
            let parts = conv_items(items, n, budget, depth);
            let mut s = text("[");
            s.append(join(&parts, ",").as_str());
            s.append("]");
            Some(s)
        },
        Js::Object(printed) => {
            match printed {
                None => None,
                Some(s) => {
                    match parse_error(s.as_str()) {
                        Some(_) => None,
                        None => value_at(s.as_str(), ""),
                    }
                },
            }
        },
    }
}

/// Converts the first elements of an array within a bound.
fn conv_items(items: &Vec<Js>, n: usize, budget: &mut usize, depth: usize) -> (r: Vec<String>)
    requires
        depth <= MAX_DEPTH,
        n <= items.len(),
    ensures
        (views(r@), *final(budget) as nat) == elements(
            items@.take(n as int),
            0,
            *old(budget) as nat,
            depth as nat,
        ),
    decreases 26 - depth, 0int, 0int,
{
    let ghost all = items@.take(n as int);
    let ghost whole = elements(all, 0, *budget as nat, depth as nat);
    let mut out: Vec<String> = Vec::new();
    let mut i: usize = 0;
    proof {
        assert(views(out@) + whole.0 =~= whole.0);
    }
    while i < n
        invariant
            i <= n <= items.len(),
            depth <= MAX_DEPTH,
            all == items@.take(n as int),
            whole == elements(all, 0, *old(budget) as nat, depth as nat),
            ({
                let rest = elements(all, i as nat, *budget as nat, depth as nat);
                views(out@) + rest.0 == whole.0 && rest.1 == whole.1
            }),
        decreases n - i,
    {
        if *budget == 0 {
            let ghost before = out@;
            out.push(text("{\"truncated\":true}"));
            proof {
                assert(views(out@) =~= views(before) + seq!["{\"truncated\":true}"@]);
            }
            return out;
        }
        let ghost was = *budget as nat;
        let ghost before = out@;
        let ghost rest = elements(all, i as nat, was, depth as nat);
        proof {
            assert(all[i as int] == items@[i as int]);
        }
        let part = match conv(&items[i], budget, depth + 1) {
            Some(json) => json,
            None => text("null"),
        };
        let ghost shown = part@;
        out.push(part);
        proof {
            assert(views(out@) =~= views(before).push(shown));
            let next = elements(all, (i + 1) as nat, *budget as nat, depth as nat);
            assert(rest.0 == seq![shown] + next.0);
            assert(views(out@) + next.0 =~= views(before) + rest.0);
        }
        i = i + 1;
    }
    proof {
        assert(views(out@) + Seq::<Seq<char>>::empty() =~= views(out@));
    }
    out
}

/// The JSON value of a script value, within a bound; `null` where nothing comes
/// of it.
pub open spec fn value_json(value: Js, max: nat) -> Seq<char> {
    match converted(value, max, 0).0 {
        Some(json) => json,
        None => "null"@,
    }
}

/// The JSON value of a script value, within a bound.
pub fn vm_to_json(value: &Js, max_bytes: usize) -> (r: Json)
    ensures
        r.text@ == value_json(*value, max_bytes as nat),
{
    let mut budget: usize = max_bytes;
    match conv(value, &mut budget, 0) {
        Some(json) => Json { text: json },
        None => Json::null(),
    }
}

} // verus!
