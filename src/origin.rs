//! Call-site origins and the messages that carry them.
//!
//! An origin names the component, the source file and the line of the call
//! site that went through the fault injector. Injected faults are described
//! by their origin alone; forwarded failures get the origin put in front of
//! their own description, so a failure that climbs through several call
//! sites collects one label per site.
use vstd::prelude::*;
use vstd::string::*;

verus! {

/// The call site of an evaluation: component name, source file and line.
#[derive(Clone, Copy, Debug, PartialEq, Eq)]
pub struct Origin {
    pub component: &'static str,
    pub file: &'static str,
    pub line: u32,
}

impl Origin {
    pub fn new(component: &'static str, file: &'static str, line: u32) -> (r: Origin)
        ensures
            r.component == component,
            r.file == file,
            r.line == line,
    {
        Origin { component, file, line }
    }

    /// `component:file:line`.
    pub fn label(&self) -> (r: String)
        ensures
            r@ == label_text(*self),
    {
        let mut s = String::from_str(self.component);
        s.append(":");
        s.append(self.file);
        s.append(":");
        let digits = decimal(self.line);
        s.append(digits.as_str());
        s
    }

    /// The description of a fault injected at this origin:
    /// `injected fault at component:file:line`.
    ///
    /// The file and the line of the call site stand in it at fixed places.
    pub fn injected_message(&self) -> (r: String)
        ensures
            r@ == injected_text(*self),
            r@.subrange(file_start(*self), file_start(*self) + self.file@.len()) == self.file@,
            r@.subrange(r@.len() - decimal_text(self.line as nat).len(), r@.len() as int)
                == decimal_text(self.line as nat),
    {
        let label = self.label();
        let r = String::from_str(INJECTED_PREFIX).concat(label.as_str());
        proof {
            lemma_injected_text_parts(*self);
        }
        r
    }

    /// The description of a failure `original` forwarded through this origin:
    /// `component:file:line -> original`.
    ///
    /// The original description is kept whole, as the end of the new one.
    pub fn forwarded_message(&self, original: &str) -> (r: String)
        ensures
            r@ == forwarded_text(*self, original@),
            r@.len() >= original@.len(),
            r@.subrange(r@.len() - original@.len(), r@.len() as int) == original@,
    {
        let mut s = self.label();
        s.append(FORWARD_ARROW);
        s.append(original);
        proof {
            assert(s@.subrange(s@.len() - original@.len(), s@.len() as int) =~= original@);
        }
        s
    }
}

/// What an injected fault's description starts with.
pub const INJECTED_PREFIX: &'static str = "injected fault at ";

/// What stands between an origin and the description it is put in front of.
pub const FORWARD_ARROW: &'static str = " -> ";

/// The character of the decimal digit `d`.
pub open spec fn digit_char(d: nat) -> char
    recommends
        d < 10,
{
    seq!['0', '1', '2', '3', '4', '5', '6', '7', '8', '9'][d as int]
}

/// The decimal digits of `n`, most significant first, without leading zeros.
pub open spec fn decimal_text(n: nat) -> Seq<char>
    decreases n,
{
    if n < 10 {
        seq![digit_char(n)]
    } else {
        decimal_text(n / 10).push(digit_char(n % 10))
    }
}

/// `component:file:line` for the origin `o`.
pub open spec fn label_text(o: Origin) -> Seq<char> {
    o.component@ + ":"@ + o.file@ + ":"@ + decimal_text(o.line as nat)
}

/// Where the file name starts in the description of a fault injected at `o`.
pub open spec fn file_start(o: Origin) -> int {
    (INJECTED_PREFIX@.len() + o.component@.len() + 1) as int
}

/// The description of a fault injected at `o`.
pub open spec fn injected_text(o: Origin) -> Seq<char> {
    INJECTED_PREFIX@ + label_text(o)
}

/// The description of the failure `original` forwarded through `o`.
pub open spec fn forwarded_text(o: Origin, original: Seq<char>) -> Seq<char> {
    label_text(o) + FORWARD_ARROW@ + original
}

/// The description of a fault injected at `o` holds the file at
/// `file_start(o)`, and ends with the decimal line number.
pub proof fn lemma_injected_text_parts(o: Origin)
    ensures
        injected_text(o).subrange(file_start(o), file_start(o) + o.file@.len()) == o.file@,
        injected_text(o).subrange(
            injected_text(o).len() - decimal_text(o.line as nat).len(),
            injected_text(o).len() as int,
        ) == decimal_text(o.line as nat),
{
    reveal_strlit(":");
    let text = injected_text(o);
    assert(text.subrange(file_start(o), file_start(o) + o.file@.len()) =~= o.file@);
    assert(text.subrange(text.len() - decimal_text(o.line as nat).len(), text.len() as int)
        =~= decimal_text(o.line as nat));
}

/// The single digit `d` as a string.
fn digit_str(d: u32) -> (r: &'static str)
    requires
        d < 10,
    ensures
        r@ == seq![digit_char(d as nat)],
{
    proof {
        reveal_strlit("0");
        reveal_strlit("1");
        reveal_strlit("2");
        reveal_strlit("3");
        reveal_strlit("4");
        reveal_strlit("5");
        reveal_strlit("6");
        reveal_strlit("7");
        reveal_strlit("8");
        reveal_strlit("9");
    }
    let r = match d {
        0 => "0",
        1 => "1",
        2 => "2",
        3 => "3",
        4 => "4",
        5 => "5",
        6 => "6",
        7 => "7",
        8 => "8",
        _ => "9",
    };
    assert(r@ =~= seq![digit_char(d as nat)]);
    r
}

/// The decimal rendering of `n`.
pub fn decimal(n: u32) -> (r: String)
    ensures
        r@ == decimal_text(n as nat),
    decreases n,
{
    if n < 10 {
        String::from_str(digit_str(n))
    } else {
        let mut s = decimal(n / 10);
        s.append(digit_str(n % 10));
        assert(s@ =~= decimal_text(n as nat));
        s
    }
}

} // verus!
