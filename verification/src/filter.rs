//! The acceptance rule: which messages are passed on to the listeners.
//!
//! A message is turned away when one byte fills more than a quarter of a
//! long text, when the text without its spaces repeats a shorter pattern,
//! when the sender bears a name kept for the server, or when the text opens
//! with the mark of a command.

use crate::message::{Message, MessageView};
use crate::period::{check_period, is_period, min_period, min_period_is_least};
use crate::text::{chars_of, lowercase_of, to_lowercase};
use vstd::prelude::*;
use vstd::utf8::encode_utf8;

verus! {

/// A text of more bytes than this is tested for a byte that fills it.
pub const LONG_TEXT: usize = 50;

/// The character that opens a command.
pub const COMMAND_MARK: char = '/';

/// How often the byte `b` occurs in `bytes`.
pub open spec fn occurrences(bytes: Seq<u8>, b: u8) -> nat
    decreases bytes.len(),
{
    if bytes.len() == 0 {
        0
    } else {
        occurrences(bytes.drop_last(), b) + if bytes.last() == b {
            1nat
        } else {
            0nat
        }
    }
}

/// The text is long and one byte value makes up more than a quarter of it.
pub open spec fn is_dominated(bytes: Seq<u8>) -> bool {
    &&& bytes.len() > LONG_TEXT
    &&& exists|b: u8| 4 * #[trigger] occurrences(bytes, b) > bytes.len()
}

/// The text `s` with every space taken out.
pub open spec fn without_spaces(s: Seq<char>) -> Seq<char> {
    s.filter(|c: char| c != ' ')
}

/// The text, without its spaces, repeats a pattern shorter than itself.
pub open spec fn is_repetitive(s: Seq<char>) -> bool {
    let t = without_spaces(s);
    t.len() >= 1 && min_period(t) < t.len()
}

/// The names that are kept for the server's own announcements, in lower case.
pub open spec fn reserved_names() -> Seq<Seq<char>> {
    seq!["[system]"@, "[debug]"@, "[status]"@, "system"@]
}

/// `lowered`, a name in lower case, is one of the reserved names.
pub open spec fn is_reserved(lowered: Seq<char>) -> bool {
    reserved_names().contains(lowered)
}

/// The text opens with the mark of a command.
pub open spec fn is_command(s: Seq<char>) -> bool {
    s.len() > 0 && s[0] == COMMAND_MARK
}

/// The message is turned away, given the lower-case form of its sender's name.
pub open spec fn rejects_with(m: MessageView, lowered: Seq<char>) -> bool {
    ||| is_dominated(encode_utf8(m.message))
    ||| is_repetitive(m.message)
    ||| is_reserved(lowered)
    ||| is_command(m.message)
}

/// The message is passed on to the listeners.
pub open spec fn accepts(m: MessageView) -> bool {
    !rejects_with(m, lowercase_of(m.username))
}

/// A message whose sender bears a reserved name, in whatever case, is never
/// passed on.
pub proof fn reserved_sender_is_rejected(m: MessageView)
    requires
        is_reserved(lowercase_of(m.username)),
    ensures
        !accepts(m),
{
}

/// A message that opens with the mark of a command is never passed on,
/// whatever else it holds.
pub proof fn command_is_rejected(m: MessageView)
    requires
        m.message.len() > 0,
        m.message[0] == '/',
    ensures
        !accepts(m),
{
}

/// A text that repeats a shorter pattern is one that has a period below its
/// length.
pub proof fn repetitive_means_shorter_period(s: Seq<char>)
    ensures
        is_repetitive(s) <==> exists|d: int|
            1 <= d < without_spaces(s).len() && #[trigger] is_period(
                without_spaces(s),
                d,
            ),
{
    let t = without_spaces(s);
    if t.len() >= 1 {
        min_period_is_least(t);
        if exists|d: int| 1 <= d < t.len() && #[trigger] is_period(t, d) {
            let d = choose|d: int| 1 <= d < t.len() && #[trigger] is_period(t, d);
            if min_period(t) > d {
                assert(!is_period(t, d));
            }
        }
    }
}

/// No byte occurs more often than the text is long.
pub proof fn occurrences_within_length(bytes: Seq<u8>, b: u8)
    ensures
        occurrences(bytes, b) <= bytes.len(),
    decreases bytes.len(),
{
    if bytes.len() > 0 {
        occurrences_within_length(bytes.drop_last(), b);
    }
}

/// Counts each byte value of `bytes`.
fn count_bytes(bytes: &[u8]) -> (counts: Vec<usize>)
    ensures
        counts.len() == 256,
        forall|b: u8| #[trigger] counts[b as int] == occurrences(bytes@, b),
{
    let mut counts: Vec<usize> = Vec::new();
    while counts.len() < 256
        invariant
            counts.len() <= 256,
            forall|k: int| 0 <= k < counts.len() ==> counts[k] == 0,
        decreases 256 - counts.len(),
    {
        counts.push(0);
    }
    let mut i: usize = 0;
    while i < bytes.len()
        invariant
            i <= bytes.len(),
            counts.len() == 256,
            forall|b: u8| #[trigger] counts[b as int] == occurrences(bytes@.take(i as int), b),
        decreases bytes.len() - i,
    {
        let value: u8 = bytes[i];
        let slot: usize = value as usize;
        let seen: usize = counts[slot];
        proof {
            assert(seen == occurrences(bytes@.take(i as int), value));
            occurrences_within_length(bytes@.take(i as int), value);
            assert(bytes@.take(i + 1).drop_last() == bytes@.take(i as int));
            assert(bytes@.take(i + 1).last() == value);
        }
        counts.set(slot, seen + 1);
        i += 1;
    }
    proof {
        assert(bytes@.take(bytes.len() as int) == bytes@);
    }
    counts
}

/// Whether the text is long and one byte value makes up more than a quarter
/// of it.
pub fn dominated(bytes: &[u8]) -> (found: bool)
    ensures
        found == is_dominated(bytes@),
{
    let n: usize = bytes.len();
    if n <= LONG_TEXT {
        return false;
    }
    let counts = count_bytes(bytes);
    let quarter: usize = n / 4;
    let mut k: usize = 0;
    while k < 256
        invariant
            k <= 256,
            n == bytes.len(),
            n > LONG_TEXT,
            quarter == n / 4,
            counts.len() == 256,
            forall|b: u8| #[trigger] counts[b as int] == occurrences(bytes@, b),
            forall|b: u8| b < k ==> 4 * #[trigger] occurrences(bytes@, b) <= n,
        decreases 256 - k,
    {
        if counts[k] > quarter {
            proof {
                let b: u8 = k as u8;
                assert(counts[b as int] == occurrences(bytes@, b));
                assert(4 * occurrences(bytes@, b) > n);
            }
            return true;
        }
        proof {
            let b: u8 = k as u8;
            assert(counts[b as int] == occurrences(bytes@, b));
        }
        k += 1;
    }
    false
}

/// The characters of `s` that are not spaces, in order.
pub fn strip_spaces(s: &Vec<char>) -> (out: Vec<char>)
    ensures
        out@ == without_spaces(s@),
{
    let ghost keep = |c: char| c != ' ';
    let mut out: Vec<char> = Vec::new();
    let mut i: usize = 0;
    proof {
        reveal(Seq::filter);
        assert(s@.take(0) == Seq::<char>::empty());
    }
    while i < s.len()
        invariant
            i <= s.len(),
            keep == |c: char| c != ' ',
            out@ == s@.take(i as int).filter(keep),
        decreases s.len() - i,
    {
        let c = s[i];
        proof {
            reveal(Seq::filter);
            assert(s@.take(i + 1).drop_last() == s@.take(i as int));
            assert(s@.take(i + 1).last() == c);
        }
        if c != ' ' {
            out.push(c);
        }
        i += 1;
    }
    proof {
        assert(s@.take(s.len() as int) == s@);
    }
    out
}

/// Whether the text, without its spaces, repeats a pattern shorter than
/// itself.
pub fn repetitive(s: &Vec<char>) -> (found: bool)
    ensures
        found == is_repetitive(s@),
{
    let stripped = strip_spaces(s);
    if stripped.len() == 0 {
        return false;
    }
    check_period(&stripped) < stripped.len()
}

/// Whether `lowered`, a name in lower case, is one of the reserved names.
pub fn reserved(lowered: &String) -> (found: bool)
    ensures
        found == is_reserved(lowered@),
{
    let first = String::from_str("[system]");
    let second = String::from_str("[debug]");
    let third = String::from_str("[status]");
    let fourth = String::from_str("system");
    let found = *lowered == first || *lowered == second || *lowered == third || *lowered == fourth;
    proof {
        let names = reserved_names();
        assert(names[0] == "[system]"@ && names[1] == "[debug]"@ && names[2] == "[status]"@
            && names[3] == "system"@);
    }
    found
}

/// Whether the text opens with the mark of a command.
pub fn command(s: &Vec<char>) -> (found: bool)
    ensures
        found == is_command(s@),
{
    s.len() > 0 && s[0] == COMMAND_MARK
}

/// Whether the message is turned away, given the lower-case form of its
/// sender's name.
pub fn rejects(m: &Message, lowered: &String) -> (turned_away: bool)
    ensures
        turned_away == rejects_with(m@, lowered@),
{
    let chars = chars_of(m.message.as_str());
    dominated(m.message.as_str().as_bytes()) || repetitive(&chars) || reserved(lowered) || command(
        &chars,
    )
}

/// Whether the message is passed on to the listeners.
pub fn accept(m: &Message) -> (passed: bool)
    ensures
        passed == accepts(m@),
{
    let lowered = to_lowercase(m.username.as_str());
    !rejects(m, &lowered)
}

} // verus!
