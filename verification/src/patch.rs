//! The outgoing scale patch: a JSON merge body that sets the replica count
//! and stamps the last-modified annotation, both in one request.

use vstd::prelude::*;

use crate::decimal::{dec_seq, u32_to_decimal};
use crate::text::push_char;
use crate::timestamp::{now_rfc3339, rfc3339_parse, Timestamp};

verus! {

/// The character for one hexadecimal digit.
pub open spec fn hex_digit(d: int) -> char {
    if d < 10 {
        crate::decimal::dec_digit(d)
    } else if d == 10 {
        'a'
    } else if d == 11 {
        'b'
    } else if d == 12 {
        'c'
    } else if d == 13 {
        'd'
    } else if d == 14 {
        'e'
    } else {
        'f'
    }
}

/// How one character appears inside a JSON string literal.
pub open spec fn escaped_char(c: char) -> Seq<char> {
    if c == '"' {
        seq!['\\', '"']
    } else if c == '\\' {
        seq!['\\', '\\']
    } else if (c as u32) < 32 {
        seq!['\\', 'u', '0', '0', hex_digit((c as u32) as int / 16), hex_digit((c as u32) as int % 16)]
    } else {
        seq![c]
    }
}

/// How a whole character sequence appears inside a JSON string literal.
pub open spec fn escaped(s: Seq<char>) -> Seq<char>
    decreases s.len(),
{
    if s.len() == 0 {
        Seq::empty()
    } else {
        escaped(s.drop_last()) + escaped_char(s.last())
    }
}

/// The hexadecimal digit character for a value below sixteen.
fn hex_char(d: u32) -> (r: char)
    requires
        d < 16,
    ensures
        r == hex_digit(d as int),
{
    if d == 0 {
        '0'
    } else if d == 1 {
        '1'
    } else if d == 2 {
        '2'
    } else if d == 3 {
        '3'
    } else if d == 4 {
        '4'
    } else if d == 5 {
        '5'
    } else if d == 6 {
        '6'
    } else if d == 7 {
        '7'
    } else if d == 8 {
        '8'
    } else if d == 9 {
        '9'
    } else if d == 10 {
        'a'
    } else if d == 11 {
        'b'
    } else if d == 12 {
        'c'
    } else if d == 13 {
        'd'
    } else if d == 14 {
        'e'
    } else {
        'f'
    }
}

/// Escapes a string for inclusion inside a JSON string literal.
pub fn json_escape(s: &str) -> (r: String)
    ensures
        r@ == escaped(s@),
{
    let n = s.unicode_len();
    let mut out = String::new();
    let mut i: usize = 0;
    proof {
        assert(escaped(s@.take(0)) =~= Seq::<char>::empty());
    }
    while i < n
        invariant
            n == s@.len(),
            i <= n,
            out@ == escaped(s@.take(i as int)),
        decreases n - i,
    {
        let c = s.get_char(i);
        if c == '"' {
            out.append("\\\"");
            proof {
                reveal_strlit("\\\"");
                assert("\\\""@ =~= escaped_char(c));
            }
        } else if c == '\\' {
            out.append("\\\\");
            proof {
                reveal_strlit("\\\\");
                assert("\\\\"@ =~= escaped_char(c));
            }
        } else if (c as u32) < 32 {
            out.append("\\u00");
            push_char(&mut out, hex_char((c as u32) / 16));
            push_char(&mut out, hex_char((c as u32) % 16));
            proof {
                reveal_strlit("\\u00");
                assert(((c as u32) / 16) as int == (c as u32) as int / 16);
                assert(((c as u32) % 16) as int == (c as u32) as int % 16);
                assert("\\u00"@.push(hex_digit((c as u32) as int / 16)).push(
                    hex_digit((c as u32) as int % 16)) =~= escaped_char(c));
            }
        } else {
            push_char(&mut out, c);
            proof {
                assert(out@ =~= escaped(s@.take(i as int)) + escaped_char(c));
            }
        }
        proof {
            assert(s@.take(i + 1).drop_last() =~= s@.take(i as int));
            assert(s@.take(i + 1).last() == s@[i as int]);
            assert(out@ =~= escaped(s@.take(i + 1)));
        }
        i = i + 1;
    }
    proof {
        assert(s@.take(n as int) =~= s@);
    }
    out
}

/// The merge patch body that sets `spec.replicas` and stamps the reserved
/// annotation, as one character sequence.
pub open spec fn patch_body(key: Seq<char>, stamp_text: Seq<char>, replicas: int) -> Seq<char> {
    "{\"metadata\":{\"annotations\":{\""@ + escaped(key) + "\":\""@ + escaped(stamp_text)
        + "\"}},\"spec\":{\"replicas\":"@ + dec_seq(replicas) + "}}"@
}

/// Composes the merge patch body for a scale to `replicas` stamped with
/// `stamp_text`.
pub fn build_scale_patch(stamp_text: &str, replicas: u32) -> (r: String)
    ensures
        r@ == patch_body(crate::spec_last_modified_key(), stamp_text@, replicas as int),
{
    let mut out = String::from_str("{\"metadata\":{\"annotations\":{\"");
    out.append(json_escape(crate::last_modified_key()).as_str());
    out.append("\":\"");
    out.append(json_escape(stamp_text).as_str());
    out.append("\"}},\"spec\":{\"replicas\":");
    out.append(u32_to_decimal(replicas).as_str());
    out.append("}}");
    out
}

/// Everything a scale request sends, beyond the object's identity: the patch
/// body and the stamped instant with its text form.
pub struct ScalePatch {
    /// The JSON merge patch body.
    pub body: String,
    /// The instant stamped into the annotation.
    pub stamp: Timestamp,
    /// The RFC 3339 rendering of the stamped instant, exactly as it stands in
    /// the body.
    pub stamp_text: String,
}

/// Reads the clock and composes the scale patch for `replicas`: the body sets
/// the replica count and carries the freshly stamped annotation. For stamps
/// below the year 10000 the stamp's text parses back to the stamped instant.
/// Yields `None` only when the clock cannot be read or rendered at all.
pub fn prepare_scale(replicas: u32) -> (r: Option<ScalePatch>)
    ensures
        (match r {
            Some(p) => {
                &&& p.body@ == patch_body(
                    crate::spec_last_modified_key(),
                    p.stamp_text@,
                    replicas as int,
                )
                &&& p.stamp.wf()
                &&& 0 <= p.stamp.secs
                &&& p.stamp.secs < 253402300800 ==> rfc3339_parse(p.stamp_text@) == Some(
                    (p.stamp.secs, p.stamp.nanos),
                )
            },
            None => true,
        }),
{
    match now_rfc3339() {
        Some((stamp, stamp_text)) => {
            let body = build_scale_patch(stamp_text.as_str(), replicas);
            Some(ScalePatch { body, stamp, stamp_text })
        },
        None => None,
    }
}

} // verus!
