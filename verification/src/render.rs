//! Rendering replies and forwarded messages as JSON text, with verified
//! string escaping.

use vstd::prelude::*;

use crate::classify::{Channel, ChannelModel};
use crate::hexcode::{hex_digit_val, is_hex_digit};
use crate::text::{append_u64_dec, dec_text_nat, push_char};

verus! {

pub open spec fn hex_digit_char(d: int) -> char
    recommends
        0 <= d < 16,
{
    if d == 0 {
        '0'
    } else if d == 1 {
        '1'
    } else if d == 2 {
        '2'
    } else if d == 3 {
        '3'
    } else if d == 4 {
        '4'
    } else if d == 5 {
        '5'
    } else if d == 6 {
        '6'
    } else if d == 7 {
        '7'
    } else if d == 8 {
        '8'
    } else if d == 9 {
        '9'
    } else if d == 10 {
        'a'
    } else if d == 11 {
        'b'
    } else if d == 12 {
        'c'
    } else if d == 13 {
        'd'
    } else if d == 14 {
        'e'
    } else {
        'f'
    }
}

/// How one character appears inside a JSON string literal: quotes and
/// backslashes are escaped, control characters take the `\u00XX` form,
/// everything else stands as itself.
pub open spec fn esc_char(c: char) -> Seq<char> {
    if c == '"' {
        seq!['\\', '"']
    } else if c == '\\' {
        seq!['\\', '\\']
    } else if (c as u32) < 32 {
        seq!['\\', 'u', '0', '0', hex_digit_char(c as u32 as int / 16), hex_digit_char(c as u32 as int % 16)]
    } else {
        seq![c]
    }
}

/// A text escaped for inclusion in a JSON string literal.
pub open spec fn escape_text(s: Seq<char>) -> Seq<char>
    decreases s.len(),
{
    if s.len() == 0 {
        Seq::empty()
    } else {
        esc_char(s[0]) + escape_text(s.drop_first())
    }
}

/// Escaping a text one character longer appends that character's escape.
pub proof fn lemma_escape_push(s: Seq<char>, c: char)
    ensures
        escape_text(s.push(c)) == escape_text(s) + esc_char(c),
    decreases s.len(),
{
    if s.len() == 0 {
        assert(s.push(c)[0] == c);
        assert(s.push(c).drop_first() =~= Seq::<char>::empty());
        assert(escape_text(Seq::<char>::empty()) =~= Seq::<char>::empty());
        assert(escape_text(s.push(c)) == esc_char(c) + escape_text(s.push(c).drop_first()));
        assert(escape_text(s.push(c)) =~= escape_text(s) + esc_char(c));
    } else {
        assert(s.push(c).drop_first() =~= s.drop_first().push(c));
        lemma_escape_push(s.drop_first(), c);
        assert(escape_text(s.push(c)) == esc_char(s[0]) + escape_text(s.drop_first().push(c)));
        assert(escape_text(s.push(c)) =~= escape_text(s) + esc_char(c));
    }
}

fn exec_hex_digit_char(d: u32) -> (r: char)
    requires
        d < 16,
    ensures
        r == hex_digit_char(d as int),
{
    match d {
        0 => '0',
        1 => '1',
        2 => '2',
        3 => '3',
        4 => '4',
        5 => '5',
        6 => '6',
        7 => '7',
        8 => '8',
        9 => '9',
        10 => 'a',
        11 => 'b',
        12 => 'c',
        13 => 'd',
        14 => 'e',
        _ => 'f',
    }
}

/// Appends the text to `out` in escaped form.
pub fn append_escaped(out: &mut String, s: &str)
    ensures
        final(out)@ == old(out)@ + escape_text(s@),
{
    let n = s.unicode_len();
    let mut i: usize = 0;
    proof {
        assert(s@.take(0) =~= Seq::<char>::empty());
        assert(old(out)@ + escape_text(s@.take(0)) =~= old(out)@);
    }
    while i < n
        invariant
            n == s@.len(),
            0 <= i <= n,
            out@ == old(out)@ + escape_text(s@.take(i as int)),
        decreases n - i,
    {
        let c = s.get_char(i);
        if c == '"' {
            push_char(out, '\\');
            push_char(out, '"');
        } else if c == '\\' {
            push_char(out, '\\');
            push_char(out, '\\');
        } else if (c as u32) < 32 {
            push_char(out, '\\');
            push_char(out, 'u');
            push_char(out, '0');
            push_char(out, '0');
            push_char(out, exec_hex_digit_char((c as u32) / 16));
            push_char(out, exec_hex_digit_char((c as u32) % 16));
        } else {
            push_char(out, c);
        }
        proof {
            assert(s@.take(i + 1) =~= s@.take(i as int).push(s@[i as int]));
            lemma_escape_push(s@.take(i as int), s@[i as int]);
            assert(out@ =~= old(out)@ + escape_text(s@.take(i + 1)));
        }
        i += 1;
    }
    proof {
        assert(s@.take(n as int) =~= s@);
    }
}

/// The reply body the platform expects: the challenge echoed verbatim
/// inside a JSON object, or an explicit null acknowledgment.
pub open spec fn reply_body_text(challenge: Option<Seq<char>>) -> Seq<char> {
    match challenge {
        Some(c) => "{\"challenge\":\""@ + escape_text(c) + "\"}"@,
        None => "{\"challenge\":null}"@,
    }
}

/// The synchronous reply: the challenge to echo, if any.
#[derive(Clone, Debug)]
pub struct SlackResponse {
    pub challenge: Option<String>,
}

impl SlackResponse {
    pub open spec fn challenge_view(&self) -> Option<Seq<char>> {
        match self.challenge {
            Some(c) => Some(c@),
            None => None,
        }
    }

    pub fn new(challenge: Option<String>) -> (r: Self)
        ensures
            r.challenge == challenge,
    {
        SlackResponse { challenge }
    }

    /// Renders the reply as JSON text.
    pub fn body_text(&self) -> (r: String)
        ensures
            r@ == reply_body_text(self.challenge_view()),
    {
        match &self.challenge {
            Some(c) => {
                let mut out = String::new();
                out.append("{\"challenge\":\"");
                append_escaped(&mut out, c.as_str());
                out.append("\"}");
                proof {
                    assert(out@ =~= reply_body_text(self.challenge_view()));
                }
                out
            },
            None => {
                let mut out = String::new();
                out.append("{\"challenge\":null}");
                proof {
                    assert(out@ =~= reply_body_text(self.challenge_view()));
                }
                out
            },
        }
    }
}

/// The JSON text of a channel, fields in declaration order, as the
/// forwarded message carries it.
pub open spec fn channel_json_text(c: ChannelModel) -> Seq<char>
    recommends
        c.created >= 0,
{
    "{\"id\":\""@ + escape_text(c.id) + "\",\"name\":\""@ + escape_text(c.name)
        + "\",\"created\":"@ + dec_text_nat(c.created as int) + ",\"creator\":\""@ + escape_text(
        c.creator,
    ) + "\"}"@
}

/// Renders a channel as the JSON message to forward.
pub fn render_channel(c: &Channel) -> (r: String)
    requires
        c.created >= 0,
    ensures
        r@ == channel_json_text(c@),
{
    let mut out = String::new();
    out.append("{\"id\":\"");
    append_escaped(&mut out, c.id.as_str());
    out.append("\",\"name\":\"");
    append_escaped(&mut out, c.name.as_str());
    out.append("\",\"created\":");
    append_u64_dec(&mut out, c.created as u64);
    out.append(",\"creator\":\"");
    append_escaped(&mut out, c.creator.as_str());
    out.append("\"}");
    proof {
        assert(out@ =~= channel_json_text(c@));
    }
    out
}

/// The character with the given code point.
pub open spec fn char_of_code(v: u32) -> char {
    v as char
}

/// Reads an escaped text back, undoing exactly the escapes that
/// esc_char produces.
pub open spec fn unescape_text(s: Seq<char>) -> Option<Seq<char>>
    decreases s.len(),
{
    if s.len() == 0 {
        Some(Seq::empty())
    } else if s[0] == '\\' {
        if s.len() >= 2 && s[1] == '"' {
            match unescape_text(s.skip(2)) {
                Some(t) => Some(seq!['"'] + t),
                None => None,
            }
        } else if s.len() >= 2 && s[1] == '\\' {
            match unescape_text(s.skip(2)) {
                Some(t) => Some(seq!['\\'] + t),
                None => None,
            }
        } else if s.len() >= 6 && s[1] == 'u' && s[2] == '0' && s[3] == '0' && is_hex_digit(s[4])
            && is_hex_digit(s[5]) {
            match unescape_text(s.skip(6)) {
                Some(t) => Some(
                    seq![char_of_code((16 * hex_digit_val(s[4]) + hex_digit_val(s[5])) as u32)] + t,
                ),
                None => None,
            }
        } else {
            None
        }
    } else {
        match unescape_text(s.skip(1)) {
            Some(t) => Some(seq![s[0]] + t),
            None => None,
        }
    }
}

proof fn lemma_char_code_roundtrip(c: char)
    requires
        (c as u32) < 32,
    ensures
        ((c as u32) as char) == c,
{
}

/// Escaping loses nothing: unescaping an escaped text gives the text
/// back. The challenge is therefore carried verbatim by the reply.
pub proof fn lemma_unescape_escape(s: Seq<char>)
    ensures
        unescape_text(escape_text(s)) == Some(s),
    decreases s.len(),
{
    if s.len() == 0 {
        assert(escape_text(s) =~= Seq::<char>::empty());
    } else {
        let c = s[0];
        let rest = s.drop_first();
        lemma_unescape_escape(rest);
        let e = escape_text(s);
        assert(e == esc_char(c) + escape_text(rest));
        if c == '"' {
            assert(e[0] == '\\' && e[1] == '"');
            assert(e.skip(2) =~= escape_text(rest));
            assert(unescape_text(e) == Some(seq!['"'] + rest));
            assert(seq!['"'] + rest =~= s);
        } else if c == '\\' {
            assert(e[0] == '\\' && e[1] == '\\');
            assert(e.skip(2) =~= escape_text(rest));
            assert(unescape_text(e) == Some(seq!['\\'] + rest));
            assert(seq!['\\'] + rest =~= s);
        } else if (c as u32) < 32 {
            let v = c as u32 as int;
            assert(e[0] == '\\' && e[1] == 'u' && e[2] == '0' && e[3] == '0');
            assert(e[4] == hex_digit_char(v / 16) && e[5] == hex_digit_char(v % 16));
            assert(is_hex_digit(hex_digit_char(v / 16)) && hex_digit_val(
                hex_digit_char(v / 16),
            ) == v / 16);
            assert(is_hex_digit(hex_digit_char(v % 16)) && hex_digit_val(
                hex_digit_char(v % 16),
            ) == v % 16);
            assert(16 * (v / 16) + v % 16 == v);
            assert(e.skip(6) =~= escape_text(rest));
            let c2 = char_of_code(v as u32);
            assert(v as u32 == c as u32);
            assert(c2 == ((c as u32) as char));
            lemma_char_code_roundtrip(c);
            assert(unescape_text(e) == Some(seq![c] + rest));
            assert(seq![c] + rest =~= s);
        } else {
            assert(e[0] == c && c != '\\');
            assert(e.skip(1) =~= escape_text(rest));
            assert(unescape_text(e) == Some(seq![c] + rest));
            assert(seq![c] + rest =~= s);
        }
    }
}

/// The reply body pins the challenge down: equal reply bodies carry the
/// same challenge, and a challenge-carrying reply never reads as the
/// null acknowledgment.
pub proof fn lemma_reply_body_injective(a: Option<Seq<char>>, b: Option<Seq<char>>)
    requires
        reply_body_text(a) == reply_body_text(b),
    ensures
        a == b,
{
    reveal_strlit("{\"challenge\":\"");
    reveal_strlit("{\"challenge\":null}");
    reveal_strlit("\"}");
    let p = "{\"challenge\":\""@;
    let q = "\"}"@;
    if a is Some && b is Some {
        let c1 = a->0;
        let c2 = b->0;
        let e1 = escape_text(c1);
        let e2 = escape_text(c2);
        assert(p + e1 + q == p + e2 + q);
        assert((p + e1 + q).len() == (p + e2 + q).len());
        assert(e1.len() == e2.len());
        assert forall|i: int| 0 <= i < e1.len() implies e1[i] == e2[i] by {
            assert((p + e1 + q)[p.len() + i] == (p + e1)[p.len() + i]);
            assert((p + e1)[p.len() + i] == e1[i]);
            assert((p + e2 + q)[p.len() + i] == (p + e2)[p.len() + i]);
            assert((p + e2)[p.len() + i] == e2[i]);
        }
        assert(e1 =~= e2);
        lemma_unescape_escape(c1);
        lemma_unescape_escape(c2);
        assert(a =~= b);
    } else if a is Some && b is None {
        assert(reply_body_text(a)[13] == '"');
        assert(reply_body_text(b)[13] == 'n');
        assert(false);
    } else if a is None && b is Some {
        assert(reply_body_text(b)[13] == '"');
        assert(reply_body_text(a)[13] == 'n');
        assert(false);
    } else {
        assert(a =~= b);
    }
}

} // verus!
