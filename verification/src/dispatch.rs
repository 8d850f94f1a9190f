//! Dispatch framing: serializes a rendered message with its routing
//! metadata (target channel, mention roles) into the JSON body that the
//! outbound transport posts. One body per message; the transport itself
//! lives outside the library.
use vstd::prelude::*;
use vstd::string::*;

use crate::strutil::{chars_of, digit_char, i64_digits, push_char, push_i64};

verus! {

/// The hexadecimal digit character for `d` (0 through 15, lowercase).
pub open spec fn hex_char(d: int) -> char {
    if d < 10 {
        digit_char(d)
    } else {
        ((87 + d) as u8) as char
    }
}

/// The JSON string-escape of one character: quote, backslash, newline,
/// carriage return and tab by their short forms, other control characters
/// by a `\u00XX` sequence, everything else verbatim.
pub open spec fn json_escape_char(c: char) -> Seq<char> {
    if c == '"' {
        "\\\""@
    } else if c == '\\' {
        "\\\\"@
    } else if c == '\n' {
        "\\n"@
    } else if c == '\r' {
        "\\r"@
    } else if c == '\t' {
        "\\t"@
    } else if (c as u32) < 32 {
        "\\u00"@ + seq![hex_char(((c as u32) / 16) as int), hex_char(((c as u32) % 16) as int)]
    } else {
        seq![c]
    }
}

/// The JSON string-escape of a text.
pub open spec fn json_escape(s: Seq<char>) -> Seq<char>
    decreases s.len(),
{
    if s.len() == 0 {
        Seq::empty()
    } else {
        json_escape(s.drop_last()) + json_escape_char(s.last())
    }
}

/// The role identifiers as a comma-separated JSON number list.
pub open spec fn roles_json(roles: Seq<i64>) -> Seq<char>
    decreases roles.len(),
{
    if roles.len() == 0 {
        Seq::empty()
    } else if roles.len() == 1 {
        i64_digits(roles[0] as int)
    } else {
        roles_json(roles.drop_last()) + ","@ + i64_digits(roles.last() as int)
    }
}

/// The outbound JSON body: the message, the target channel, and the mention
/// roles in order.
pub open spec fn dispatch_body_spec(message: Seq<char>, channel: int, roles: Seq<i64>) -> Seq<
    char,
> {
    "{\"message\":\""@ + json_escape(message) + "\",\"channelId\":"@ + i64_digits(channel)
        + ",\"roles\":["@ + roles_json(roles) + "]}"@
}

fn push_escaped_char(out: &mut String, c: char)
    ensures
        final(out)@ == old(out)@ + json_escape_char(c),
{
    if c == '"' {
        out.append("\\\"");
    } else if c == '\\' {
        out.append("\\\\");
    } else if c == '\n' {
        out.append("\\n");
    } else if c == '\r' {
        out.append("\\r");
    } else if c == '\t' {
        out.append("\\t");
    } else {
        let u = c as u32;
        if u < 32 {
            out.append("\\u00");
            let hi = (u / 16) as u8;
            let lo = (u % 16) as u8;
            push_char(out, (48 + hi) as char);
            if lo < 10 {
                push_char(out, (48 + lo) as char);
            } else {
                push_char(out, (87 + lo) as char);
            }
            proof {
                assert(final(out)@ =~= old(out)@ + json_escape_char(c));
            }
        } else {
            push_char(out, c);
            proof {
                assert(final(out)@ =~= old(out)@ + json_escape_char(c));
            }
        }
    }
}

/// Builds the JSON body the transport posts for one message: the message
/// string escaped, the channel, and the roles in their given order.
pub fn dispatch_body(message: &str, channel_id: i64, roles: &Vec<i64>) -> (r: String)
    ensures
        r@ == dispatch_body_spec(message@, channel_id as int, roles@),
{
    let mut out = String::new();
    out.append("{\"message\":\"");
    let chars = chars_of(message);
    let n = chars.len();
    let ghost opening = "{\"message\":\""@;
    proof {
        assert(out@ =~= opening + json_escape(message@.take(0)));
    }
    let mut i: usize = 0;
    while i < n
        invariant
            i <= n,
            n == chars@.len(),
            chars@ == message@,
            out@ == opening + json_escape(message@.take(i as int)),
        decreases n - i,
    {
        push_escaped_char(&mut out, chars[i]);
        proof {
            assert(message@.take(i + 1).drop_last() =~= message@.take(i as int));
            assert(message@.take(i + 1).last() == message@[i as int]);
            assert(out@ =~= opening + json_escape(message@.take(i + 1)));
        }
        i = i + 1;
    }
    proof {
        assert(message@.take(n as int) =~= message@);
    }
    out.append("\",\"channelId\":");
    push_i64(&mut out, channel_id);
    out.append(",\"roles\":[");
    let ghost mid = opening + json_escape(message@) + "\",\"channelId\":"@ + i64_digits(
        channel_id as int,
    ) + ",\"roles\":["@;
    proof {
        assert(out@ =~= mid + roles_json(roles@.take(0)));
    }
    let m = roles.len();
    let mut j: usize = 0;
    while j < m
        invariant
            j <= m,
            m == roles@.len(),
            out@ == mid + roles_json(roles@.take(j as int)),
        decreases m - j,
    {
        if j > 0 {
            out.append(",");
        }
        push_i64(&mut out, roles[j]);
        proof {
            assert(roles@.take(j + 1).drop_last() =~= roles@.take(j as int));
            assert(roles@.take(j + 1).last() == roles@[j as int]);
            if j == 0 {
                assert(roles_json(roles@.take(1)) == i64_digits(roles@[0] as int));
            }
            assert(out@ =~= mid + roles_json(roles@.take(j + 1)));
        }
        j = j + 1;
    }
    proof {
        assert(roles@.take(m as int) =~= roles@);
    }
    out.append("]}");
    proof {
        assert(out@ =~= dispatch_body_spec(message@, channel_id as int, roles@));
    }
    out
}

/// The dispatch body is a pure function of message, channel and roles: two
/// evaluations of identical inputs agree — there is no hidden state.
pub proof fn lemma_dispatch_body_deterministic(
    message: Seq<char>,
    channel: int,
    roles: Seq<i64>,
    r1: Seq<char>,
    r2: Seq<char>,
)
    requires
        r1 == dispatch_body_spec(message, channel, roles),
        r2 == dispatch_body_spec(message, channel, roles),
    ensures
        r1 == r2,
{
}

} // verus!
