//! Textual substitution of one port number by another inside a host header.

use vstd::prelude::*;
use vstd::std_specs::iter::IteratorSpec;
use vstd::string::*;
use crate::ports::Ports;

verus! {

/// The character that stands for the digit `d`.
pub open spec fn digit_char(d: nat) -> char
    recommends
        d < 10,
{
    if d == 0 {
        '0'
    } else if d == 1 {
        '1'
    } else if d == 2 {
        '2'
    } else if d == 3 {
        '3'
    } else if d == 4 {
        '4'
    } else if d == 5 {
        '5'
    } else if d == 6 {
        '6'
    } else if d == 7 {
        '7'
    } else if d == 8 {
        '8'
    } else {
        '9'
    }
}

/// The decimal form of `n`: no sign, no leading zero, `"0"` for zero.
pub open spec fn decimal(n: nat) -> Seq<char>
    decreases n,
{
    if n < 10 {
        seq![digit_char(n)]
    } else {
        decimal(n / 10).push(digit_char(n % 10))
    }
}

/// `pattern` stands in `text` at index `at`.
pub open spec fn occurs_at(text: Seq<char>, pattern: Seq<char>, at: int) -> bool {
    0 <= at && at + pattern.len() <= text.len() && text.subrange(at, at + pattern.len())
        == pattern
}

/// `pattern` stands somewhere in `text`.
pub open spec fn occurs(text: Seq<char>, pattern: Seq<char>) -> bool {
    exists|at: int| occurs_at(text, pattern, at)
}

/// What is left of `text` from index `from` on, after each occurrence of
/// `pattern` met on the way from left to right has given way to `with`.
/// An occurrence that begins inside an earlier one is not met.
pub open spec fn replaced_from(
    text: Seq<char>,
    pattern: Seq<char>,
    with: Seq<char>,
    from: int,
) -> Seq<char>
    recommends
        pattern.len() > 0,
        0 <= from,
    decreases text.len() - from,
{
    if from < 0 || from >= text.len() {
        Seq::empty()
    } else if pattern.len() > 0 && occurs_at(text, pattern, from) {
        with + replaced_from(text, pattern, with, from + pattern.len())
    } else {
        seq![text[from]] + replaced_from(text, pattern, with, from + 1)
    }
}

/// `text` with every occurrence of `pattern`, non-overlapping and taken
/// from the left, replaced by `with`.
pub open spec fn replaced(text: Seq<char>, pattern: Seq<char>, with: Seq<char>) -> Seq<char>
    recommends
        pattern.len() > 0,
{
    replaced_from(text, pattern, with, 0)
}

/// The host header after the plaintext port's digits have given way to the
/// TLS port's digits, wherever they stand in it.
pub open spec fn rewritten_host(host: Seq<char>, ports: Ports) -> Seq<char> {
    replaced(host, decimal(ports.http as nat), decimal(ports.https as nat))
}

/// A decimal form is never empty.
pub proof fn lemma_decimal_nonempty(n: nat)
    ensures
        decimal(n).len() > 0,
    decreases n,
{
    if n >= 10 {
        lemma_decimal_nonempty(n / 10);
    }
}

/// Where the pattern stands nowhere at or after `from`, the replacement
/// leaves that part of the text as it is.
pub proof fn lemma_replaced_from_absent(
    text: Seq<char>,
    pattern: Seq<char>,
    with: Seq<char>,
    from: int,
)
    requires
        0 <= from <= text.len(),
        forall|at: int| from <= at ==> !occurs_at(text, pattern, at),
    ensures
        replaced_from(text, pattern, with, from) == text.subrange(from, text.len() as int),
    decreases text.len() - from,
{
    if from < text.len() {
        lemma_replaced_from_absent(text, pattern, with, from + 1);
        assert(seq![text[from]] + text.subrange(from + 1, text.len() as int) =~= text.subrange(
            from,
            text.len() as int,
        ));
    } else {
        assert(text.subrange(from, text.len() as int) =~= Seq::<char>::empty());
    }
}

/// A host header in which the plaintext port's digits do not occur is left
/// unchanged.
pub proof fn lemma_rewrite_without_port(host: Seq<char>, ports: Ports)
    requires
        !occurs(host, decimal(ports.http as nat)),
    ensures
        rewritten_host(host, ports) == host,
{
    let pattern = decimal(ports.http as nat);
    assert forall|at: int| 0 <= at implies !occurs_at(host, pattern, at) by {
        if occurs_at(host, pattern, at) {
            assert(occurs(host, pattern));
        }
    }
    lemma_replaced_from_absent(host, pattern, decimal(ports.https as nat), 0);
    assert(host.subrange(0, host.len() as int) =~= host);
}

/// Rewriting is a no-op from the second time on: once a rewritten host
/// header no longer holds the plaintext port's digits, rewriting it again
/// gives the same host header.
pub proof fn lemma_rewrite_twice(host: Seq<char>, ports: Ports)
    requires
        !occurs(rewritten_host(host, ports), decimal(ports.http as nat)),
    ensures
        rewritten_host(rewritten_host(host, ports), ports) == rewritten_host(host, ports),
{
    lemma_rewrite_without_port(rewritten_host(host, ports), ports);
}

/// The one-character text of a digit.
fn digit_text(d: u16) -> (s: &'static str)
    requires
        d < 10,
    ensures
        s@ == seq![digit_char(d as nat)],
{
    proof {
        reveal_strlit("0");
        reveal_strlit("1");
        reveal_strlit("2");
        reveal_strlit("3");
        reveal_strlit("4");
        reveal_strlit("5");
        reveal_strlit("6");
        reveal_strlit("7");
        reveal_strlit("8");
        reveal_strlit("9");
    }
    let s: &'static str = if d == 0 {
        "0"
    } else if d == 1 {
        "1"
    } else if d == 2 {
        "2"
    } else if d == 3 {
        "3"
    } else if d == 4 {
        "4"
    } else if d == 5 {
        "5"
    } else if d == 6 {
        "6"
    } else if d == 7 {
        "7"
    } else if d == 8 {
        "8"
    } else {
        "9"
    };
    assert(s@ =~= seq![digit_char(d as nat)]);
    s
}

/// The decimal form of a port number.
pub fn port_text(port: u16) -> (text: String)
    ensures
        text@ == decimal(port as nat),
    decreases port,
{
    if port < 10 {
        String::from_str(digit_text(port))
    } else {
        let mut text = port_text(port / 10);
        text.append(digit_text(port % 10));
        assert(text@ =~= decimal(port as nat));
        text
    }
}

/// The characters of a text, one by one.
fn chars_of(text: &str) -> (out: Vec<char>)
    ensures
        out@ == text@,
{
    broadcast use {axiom_spec_iter, next_postcondition};

    let len: usize = text.unicode_len();
    let mut rest = text.chars();
    let mut out: Vec<char> = Vec::new();
    assert(out@ + rest.remaining() =~= text@);
    while out.len() < len
        invariant
            len == text@.len(),
            rest.obeys_prophetic_iter_laws(),
            out@ + rest.remaining() == text@,
        decreases len - out@.len(),
    {
        let ghost before = rest.remaining();
        match rest.next() {
            Some(c) => {
                out.push(c);
                assert(out@ + rest.remaining() =~= text@) by {
                    assert(before =~= seq![c] + before.drop_first());
                }
            },
            None => {
                assert(out@ + Seq::<char>::empty() =~= out@);
                return out;
            },
        }
    }
    assert(rest.remaining().len() == 0);
    assert(out@ + rest.remaining() =~= out@);
    out
}

/// Tells whether `pattern` stands in `text` at index `at`.
fn stands_at(text: &Vec<char>, pattern: &Vec<char>, at: usize) -> (found: bool)
    requires
        at <= text@.len(),
    ensures
        found == occurs_at(text@, pattern@, at as int),
{
    let text_len: usize = text.len();
    if pattern.len() > text_len - at {
        return false;
    }
    let mut k: usize = 0;
    while k < pattern.len()
        invariant
            text_len == text@.len(),
            at + pattern@.len() <= text@.len(),
            k <= pattern@.len(),
            forall|j: int| 0 <= j < k ==> text@[at + j] == pattern@[j],
        decreases pattern@.len() - k,
    {
        if text[at + k] != pattern[k] {
            proof {
                let part = text@.subrange(at as int, at + pattern@.len());
                assert(part[k as int] == text@[at + k]);
            }
            return false;
        }
        k = k + 1;
    }
    assert(text@.subrange(at as int, at + pattern@.len()) =~= pattern@);
    true
}

/// Replaces every occurrence of `pattern` in `text` by `with`, from the left
/// and without overlap. What lies between two occurrences is copied in one
/// piece.
fn substitute(text: &str, pattern: &str, with: &str) -> (out: String)
    requires
        pattern@.len() > 0,
    ensures
        out@ == replaced(text@, pattern@, with@),
{
    let chars = chars_of(text);
    let wanted = chars_of(pattern);
    let mut out = String::new();
    let mut copied: usize = 0;
    let mut at: usize = 0;
    assert(out@ + text@.subrange(0, 0) =~= Seq::<char>::empty());
    assert(Seq::<char>::empty() + replaced(text@, pattern@, with@) =~= replaced(
        text@,
        pattern@,
        with@,
    ));
    while at < chars.len()
        invariant
            chars@ == text@,
            wanted@ == pattern@,
            pattern@.len() > 0,
            copied <= at <= text@.len(),
            out@ + text@.subrange(copied as int, at as int) + replaced_from(
                text@,
                pattern@,
                with@,
                at as int,
            ) == replaced(text@, pattern@, with@),
        decreases text@.len() - at,
    {
        let ghost before = out@;
        let ghost piece = text@.subrange(copied as int, at as int);
        if stands_at(&chars, &wanted, at) {
            out.append(text.substring_char(copied, at));
            out.append(with);
            proof {
                let next = at + pattern@.len();
                let rest = replaced_from(text@, pattern@, with@, next);
                assert(text@.subrange(next, next) =~= Seq::<char>::empty());
                assert(((before + piece) + with@) + Seq::<char>::empty() + rest =~= (before
                    + piece) + (with@ + rest));
            }
            at = at + wanted.len();
            copied = at;
        } else {
            proof {
                let rest = replaced_from(text@, pattern@, with@, at + 1);
                assert(text@.subrange(copied as int, at + 1) =~= piece + seq![text@[at as int]]);
                assert((before + (piece + seq![text@[at as int]])) + rest =~= (before + piece) + (
                seq![text@[at as int]] + rest));
            }
            at = at + 1;
        }
    }
    let ghost before = out@;
    out.append(text.substring_char(copied, at));
    assert((before + text@.subrange(copied as int, at as int)) + Seq::<char>::empty() =~= out@);
    out
}

/// Rewrites a host header for the TLS endpoint: the decimal form of the
/// plaintext port gives way to that of the TLS port wherever it stands in
/// the text, also inside a host name. A header without those digits comes
/// back unchanged.
pub fn rewrite_host(host: &str, ports: Ports) -> (out: String)
    ensures
        out@ == rewritten_host(host@, ports),
{
    let from = port_text(ports.http);
    let to = port_text(ports.https);
    proof {
        lemma_decimal_nonempty(ports.http as nat);
    }
    substitute(host, from.as_str(), to.as_str())
}

} // verus!
