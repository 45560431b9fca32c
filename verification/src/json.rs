use vstd::prelude::*;
use vstd::string::{StrSliceExecFns, StringExecFns};
use crate::errors::OrderServiceError;
use crate::hbase_utils::decoded_text;
use crate::orders::{Order, OrderEvent, OrderEventView, OrderView};
use crate::text::{bytes_to_string, char_from_u32, push_char, str_eq};

verus! {

/// The lowercase hexadecimal digit for a value below sixteen.
pub open spec fn hex_digit(v: int) -> char {
    if v == 0 {
        '0'
    } else if v == 1 {
        '1'
    } else if v == 2 {
        '2'
    } else if v == 3 {
        '3'
    } else if v == 4 {
        '4'
    } else if v == 5 {
        '5'
    } else if v == 6 {
        '6'
    } else if v == 7 {
        '7'
    } else if v == 8 {
        '8'
    } else if v == 9 {
        '9'
    } else if v == 10 {
        'a'
    } else if v == 11 {
        'b'
    } else if v == 12 {
        'c'
    } else if v == 13 {
        'd'
    } else if v == 14 {
        'e'
    } else {
        'f'
    }
}

fn hex_digit_exec(v: u32) -> (r: char)
    requires
        v < 16,
    ensures
        r == hex_digit(v as int),
{
    if v == 0 {
        '0'
    } else if v == 1 {
        '1'
    } else if v == 2 {
        '2'
    } else if v == 3 {
        '3'
    } else if v == 4 {
        '4'
    } else if v == 5 {
        '5'
    } else if v == 6 {
        '6'
    } else if v == 7 {
        '7'
    } else if v == 8 {
        '8'
    } else if v == 9 {
        '9'
    } else if v == 10 {
        'a'
    } else if v == 11 {
        'b'
    } else if v == 12 {
        'c'
    } else if v == 13 {
        'd'
    } else if v == 14 {
        'e'
    } else {
        'f'
    }
}

/// How one character appears inside a JSON string literal: quote and
/// backslash take a two-character escape, the control characters with short
/// escapes take those, any other control character takes a `\u00..` escape,
/// and every remaining character stands as itself.
pub open spec fn escape_char(c: char) -> Seq<char> {
    if c == '"' {
        seq!['\\', '"']
    } else if c == '\\' {
        seq!['\\', '\\']
    } else if c == '\u{8}' {
        seq!['\\', 'b']
    } else if c == '\u{9}' {
        seq!['\\', 't']
    } else if c == '\u{a}' {
        seq!['\\', 'n']
    } else if c == '\u{c}' {
        seq!['\\', 'f']
    } else if c == '\u{d}' {
        seq!['\\', 'r']
    } else if (c as u32) < 0x20 {
        seq![
            '\\',
            'u',
            '0',
            '0',
            hex_digit(((c as u32) >> 4u32) as int),
            hex_digit(((c as u32) & 0xf) as int),
        ]
    } else {
        seq![c]
    }
}

/// How a whole character sequence appears inside a JSON string literal.
pub open spec fn escape_string(s: Seq<char>) -> Seq<char>
    decreases s.len(),
{
    if s.len() == 0 {
        seq![]
    } else {
        escape_char(s[0]) + escape_string(s.drop_first())
    }
}

proof fn lemma_escape_string_push(s: Seq<char>, c: char)
    ensures
        escape_string(s.push(c)) == escape_string(s) + escape_char(c),
    decreases s.len(),
{
    reveal_with_fuel(escape_string, 3);
    if s.len() == 0 {
        assert(s.push(c)[0] == c);
        assert(s.push(c).drop_first() =~= Seq::<char>::empty());
        assert(escape_string(s.push(c)) =~= escape_char(c));
        assert(escape_string(s) + escape_char(c) =~= escape_char(c));
    } else {
        assert(s.push(c)[0] == s[0]);
        assert(s.push(c).drop_first() =~= s.drop_first().push(c));
        lemma_escape_string_push(s.drop_first(), c);
        assert(escape_string(s) + escape_char(c) =~= escape_char(s[0]) + (escape_string(
            s.drop_first(),
        ) + escape_char(c)));
    }
}

/// Appends the JSON-escaped form of `s` to `out`.
fn append_escaped(out: &mut String, s: &str)
    ensures
        final(out)@ == old(out)@ + escape_string(s@),
{
    let n = s.unicode_len();
    let mut i: usize = 0;
    proof {
        assert(s@.take(0) =~= Seq::<char>::empty());
        assert(out@ =~= old(out)@ + escape_string(s@.take(0)));
    }
    while i < n
        invariant
            n == s@.len(),
            i <= n,
            out@ == old(out)@ + escape_string(s@.take(i as int)),
        decreases n - i,
    {
        let c = s.get_char(i);
        let code = c as u32;
        if c == '"' {
            out.append("\\\"");
            proof {
                reveal_strlit("\\\"");
                assert("\\\""@ =~= escape_char(c));
            }
        } else if c == '\\' {
            out.append("\\\\");
            proof {
                reveal_strlit("\\\\");
                assert("\\\\"@ =~= escape_char(c));
            }
        } else if c == '\u{8}' {
            out.append("\\b");
            proof {
                reveal_strlit("\\b");
                assert("\\b"@ =~= escape_char(c));
            }
        } else if c == '\u{9}' {
            out.append("\\t");
            proof {
                reveal_strlit("\\t");
                assert("\\t"@ =~= escape_char(c));
            }
        } else if c == '\u{a}' {
            out.append("\\n");
            proof {
                reveal_strlit("\\n");
                assert("\\n"@ =~= escape_char(c));
            }
        } else if c == '\u{c}' {
            out.append("\\f");
            proof {
                reveal_strlit("\\f");
                assert("\\f"@ =~= escape_char(c));
            }
        } else if c == '\u{d}' {
            out.append("\\r");
            proof {
                reveal_strlit("\\r");
                assert("\\r"@ =~= escape_char(c));
            }
        } else if code < 0x20 {
            let ghost before = out@;
            proof {
                assert(code >> 4u32 < 16u32) by (bit_vector)
                    requires
                        code < 0x20u32,
                ;
                assert(code & 0xfu32 < 16u32) by (bit_vector);
            }
            out.append("\\u00");
            crate::text::push_char(out, hex_digit_exec(code >> 4u32));
            crate::text::push_char(out, hex_digit_exec(code & 0xf));
            proof {
                reveal_strlit("\\u00");
                assert(out@ =~= before + escape_char(c));
            }
        } else {
            crate::text::push_char(out, c);
            proof {
                assert(out@.last() == c);
                assert(escape_char(c) =~= seq![c]);
            }
        }
        proof {
            lemma_escape_string_push(s@.take(i as int), s@[i as int]);
            assert(s@.take(i as int).push(s@[i as int]) =~= s@.take(i as int + 1));
            assert(out@ =~= old(out)@ + escape_string(s@.take(i as int + 1)));
        }
        i = i + 1;
    }
    proof {
        assert(s@.take(n as int) =~= s@);
    }
}

/// The canonical JSON wire form of a lifecycle event: an object holding
/// `orderId` first, then `courierId`, both as JSON strings, with no
/// whitespace.
pub open spec fn event_json(e: OrderEventView) -> Seq<char> {
    "{\"orderId\":\""@ + escape_string(e.order_id) + "\",\"courierId\":\""@ + escape_string(
        e.courier_id,
    ) + "\"}"@
}

/// The canonical JSON form of an order summary: every field as a JSON
/// string, in declaration order, with no whitespace.
pub open spec fn order_json(o: OrderView) -> Seq<char> {
    "{\"o_id\":\""@ + escape_string(o.o_id) + "\",\"c_id\":\""@ + escape_string(o.c_id)
        + "\",\"r_id\":\""@ + escape_string(o.r_id) + "\",\"cust_addr\":\""@ + escape_string(
        o.cust_addr,
    ) + "\",\"rest_addr\":\""@ + escape_string(o.rest_addr) + "\",\"state\":\""@ + escape_string(
        o.state,
    ) + "\"}"@
}

impl Order {
    /// Renders the order as its canonical JSON text; rendering cannot fail.
    pub fn to_json_string(&self) -> (r: Result<String, crate::errors::OrderServiceError>)
        ensures
            r matches Ok(s) && s@ == order_json(self@),
    {
        let mut out = String::from_str("{\"o_id\":\"");
        append_escaped(&mut out, self.o_id.as_str());
        out.append("\",\"c_id\":\"");
        append_escaped(&mut out, self.c_id.as_str());
        out.append("\",\"r_id\":\"");
        append_escaped(&mut out, self.r_id.as_str());
        out.append("\",\"cust_addr\":\"");
        append_escaped(&mut out, self.cust_addr.as_str());
        out.append("\",\"rest_addr\":\"");
        append_escaped(&mut out, self.rest_addr.as_str());
        out.append("\",\"state\":\"");
        append_escaped(&mut out, self.state.as_str());
        out.append("\"}");
        proof {
            assert(out@ =~= order_json(self@));
        }
        Ok(out)
    }
}

/// JSON insignificant whitespace.
pub open spec fn is_ws(c: char) -> bool {
    c == ' ' || c == '\t' || c == '\n' || c == '\r'
}

fn is_ws_exec(c: char) -> (r: bool)
    ensures
        r == is_ws(c),
{
    c == ' ' || c == '\t' || c == '\n' || c == '\r'
}

/// The first position at or after `i` that holds a non-whitespace character,
/// or the end of the text.
pub open spec fn skip_ws(cs: Seq<char>, i: int) -> int
    decreases cs.len() - i,
    when 0 <= i <= cs.len()
{
    if i < cs.len() && is_ws(cs[i]) {
        skip_ws(cs, i + 1)
    } else {
        i
    }
}

proof fn lemma_skip_ws_bounds(cs: Seq<char>, i: int)
    requires
        0 <= i <= cs.len(),
    ensures
        i <= skip_ws(cs, i) <= cs.len(),
    decreases cs.len() - i,
{
    if i < cs.len() && is_ws(cs[i]) {
        lemma_skip_ws_bounds(cs, i + 1);
    }
}

fn skip_ws_exec(s: &str, i: usize) -> (r: usize)
    requires
        i <= s@.len(),
    ensures
        r as int == skip_ws(s@, i as int),
        i <= r <= s@.len(),
{
    let n = s.unicode_len();
    let mut j = i;
    while j < n
        invariant
            i <= j <= n,
            n == s@.len(),
            skip_ws(s@, i as int) == skip_ws(s@, j as int),
        decreases n - j,
    {
        let c = s.get_char(j);
        if !is_ws_exec(c) {
            return j;
        }
        j = j + 1;
    }
    j
}

/// The character a one-letter JSON escape stands for, if the letter is one.
pub open spec fn simple_unescape(c: char) -> Option<char> {
    if c == '"' {
        Some('"')
    } else if c == '\\' {
        Some('\\')
    } else if c == '/' {
        Some('/')
    } else if c == 'b' {
        Some('\u{8}')
    } else if c == 'f' {
        Some('\u{c}')
    } else if c == 'n' {
        Some('\u{a}')
    } else if c == 'r' {
        Some('\u{d}')
    } else if c == 't' {
        Some('\u{9}')
    } else {
        None
    }
}

fn simple_unescape_exec(c: char) -> (r: Option<char>)
    ensures
        r == simple_unescape(c),
{
    if c == '"' {
        Some('"')
    } else if c == '\\' {
        Some('\\')
    } else if c == '/' {
        Some('/')
    } else if c == 'b' {
        Some('\u{8}')
    } else if c == 'f' {
        Some('\u{c}')
    } else if c == 'n' {
        Some('\u{a}')
    } else if c == 'r' {
        Some('\u{d}')
    } else if c == 't' {
        Some('\u{9}')
    } else {
        None
    }
}

/// The value of a hexadecimal digit character, if it is one.
pub open spec fn hex_val(c: char) -> Option<u32> {
    let v = c as u32;
    if 48 <= v <= 57 {
        Some((v - 48) as u32)
    } else if 97 <= v <= 102 {
        Some((v - 87) as u32)
    } else if 65 <= v <= 70 {
        Some((v - 55) as u32)
    } else {
        None
    }
}

fn hex_val_exec(c: char) -> (r: Option<u32>)
    ensures
        r == hex_val(c),
        r matches Some(v) ==> v < 16,
{
    let v = c as u32;
    if 48 <= v && v <= 57 {
        Some(v - 48)
    } else if 97 <= v && v <= 102 {
        Some(v - 87)
    } else if 65 <= v && v <= 70 {
        Some(v - 55)
    } else {
        None
    }
}

/// Scans the inside of a JSON string literal from position `i` (just past
/// the opening quote) to its closing quote: yields the unescaped content and
/// the position after the closing quote. Unterminated strings, bad escapes,
/// escaped surrogate codes and raw control characters all fail.
pub open spec fn parse_string_body(cs: Seq<char>, i: int) -> Option<(Seq<char>, int)>
    decreases cs.len() - i,
    when 0 <= i <= cs.len()
{
    if i == cs.len() {
        None
    } else if cs[i] == '"' {
        Some((seq![], i + 1))
    } else if cs[i] == '\\' {
        if i + 1 == cs.len() {
            None
        } else if cs[i + 1] == 'u' {
            if i + 6 > cs.len() {
                None
            } else {
                match (hex_val(cs[i + 2]), hex_val(cs[i + 3]), hex_val(cs[i + 4]), hex_val(
                    cs[i + 5],
                )) {
                    (Some(a), Some(b), Some(c), Some(d)) => {
                        let v = (a * 0x1000 + b * 0x100 + c * 0x10 + d) as u32;
                        if 0xD800 <= v <= 0xDFFF {
                            None
                        } else {
                            match parse_string_body(cs, i + 6) {
                                Some((rest, j)) => Some((seq![v as char] + rest, j)),
                                None => None,
                            }
                        }
                    },
                    _ => None,
                }
            }
        } else {
            match simple_unescape(cs[i + 1]) {
                Some(c) => match parse_string_body(cs, i + 2) {
                    Some((rest, j)) => Some((seq![c] + rest, j)),
                    None => None,
                },
                None => None,
            }
        }
    } else if (cs[i] as u32) < 0x20 {
        None
    } else {
        match parse_string_body(cs, i + 1) {
            Some((rest, j)) => Some((seq![cs[i]] + rest, j)),
            None => None,
        }
    }
}

/// Scans one JSON string literal starting at its opening quote.
pub open spec fn parse_string(cs: Seq<char>, i: int) -> Option<(Seq<char>, int)> {
    if 0 <= i < cs.len() && cs[i] == '"' {
        parse_string_body(cs, i + 1)
    } else {
        None
    }
}

proof fn lemma_parse_string_body_advances(cs: Seq<char>, i: int)
    requires
        0 <= i <= cs.len(),
    ensures
        parse_string_body(cs, i) matches Some(p) ==> i < p.1 <= cs.len(),
    decreases cs.len() - i,
{
    if i == cs.len() {
    } else if cs[i] == '"' {
    } else if cs[i] == '\\' {
        if i + 1 == cs.len() {
        } else if cs[i + 1] == 'u' {
            if i + 6 <= cs.len() {
                lemma_parse_string_body_advances(cs, i + 6);
            }
        } else {
            lemma_parse_string_body_advances(cs, i + 2);
        }
    } else {
        lemma_parse_string_body_advances(cs, i + 1);
    }
}

proof fn lemma_parse_string_advances(cs: Seq<char>, i: int)
    ensures
        parse_string(cs, i) matches Some(p) ==> i < p.1 <= cs.len(),
{
    if 0 <= i < cs.len() && cs[i] == '"' {
        lemma_parse_string_body_advances(cs, i + 1);
    }
}

/// Scans one `"key" : "value"` member starting at the key's opening quote.
pub open spec fn parse_member(cs: Seq<char>, i: int) -> Option<((Seq<char>, Seq<char>), int)> {
    match parse_string(cs, i) {
        Some((key, j)) => {
            let k = skip_ws(cs, j);
            if k < cs.len() && cs[k] == ':' {
                let m = skip_ws(cs, k + 1);
                match parse_string(cs, m) {
                    Some((value, e)) => Some(((key, value), e)),
                    None => None,
                }
            } else {
                None
            }
        },
        None => None,
    }
}

proof fn lemma_parse_member_advances(cs: Seq<char>, i: int)
    requires
        0 <= i <= cs.len(),
    ensures
        parse_member(cs, i) matches Some(p) ==> i < p.1 <= cs.len(),
{
    lemma_parse_string_advances(cs, i);
    if let Some((key, j)) = parse_string(cs, i) {
        lemma_skip_ws_bounds(cs, j);
        let k = skip_ws(cs, j);
        if k < cs.len() && cs[k] == ':' {
            lemma_skip_ws_bounds(cs, k + 1);
            let m = skip_ws(cs, k + 1);
            lemma_parse_string_advances(cs, m);
        }
    }
}

/// Scans `member (ws ',' ws member)* ws '}'` starting at the first member's
/// opening quote: yields all members and the position after the brace.
pub open spec fn parse_members(cs: Seq<char>, i: int) -> Option<
    (Seq<(Seq<char>, Seq<char>)>, int),
>
    decreases cs.len() - i,
    when 0 <= i <= cs.len()
    via parse_members_decreases
{
    match parse_member(cs, i) {
        Some((kv, j)) => {
            let k = skip_ws(cs, j);
            if k < cs.len() && cs[k] == ',' {
                let m = skip_ws(cs, k + 1);
                match parse_members(cs, m) {
                    Some((rest, e)) => Some((seq![kv] + rest, e)),
                    None => None,
                }
            } else if k < cs.len() && cs[k] == '}' {
                Some((seq![kv], k + 1))
            } else {
                None
            }
        },
        None => None,
    }
}

#[via_fn]
proof fn parse_members_decreases(cs: Seq<char>, i: int) {
    lemma_parse_member_advances(cs, i);
    if let Some((kv, j)) = parse_member(cs, i) {
        lemma_skip_ws_bounds(cs, j);
        let k = skip_ws(cs, j);
        if k < cs.len() && cs[k] == ',' {
            lemma_skip_ws_bounds(cs, k + 1);
        }
    }
}

/// Parses a whole payload as one flat JSON object whose member values are
/// all strings: yields the members in order, or nothing when the payload
/// does not match this wire grammar.
pub open spec fn parse_flat_object(cs: Seq<char>) -> Option<Seq<(Seq<char>, Seq<char>)>> {
    let i = skip_ws(cs, 0);
    if i < cs.len() && cs[i] == '{' {
        let j = skip_ws(cs, i + 1);
        if j < cs.len() && cs[j] == '}' {
            if skip_ws(cs, j + 1) == cs.len() {
                Some(seq![])
            } else {
                None
            }
        } else {
            match parse_members(cs, j) {
                Some((members, k)) => if skip_ws(cs, k) == cs.len() {
                    Some(members)
                } else {
                    None
                },
                None => None,
            }
        }
    } else {
        None
    }
}

/// How many members carry the given key.
pub open spec fn key_count(members: Seq<(Seq<char>, Seq<char>)>, key: Seq<char>) -> nat
    decreases members.len(),
{
    if members.len() == 0 {
        0
    } else {
        (if members[0].0 == key {
            1nat
        } else {
            0nat
        }) + key_count(members.drop_first(), key)
    }
}

/// The value of the first member carrying the given key.
pub open spec fn key_value(members: Seq<(Seq<char>, Seq<char>)>, key: Seq<char>) -> Seq<char>
    decreases members.len(),
{
    if members.len() == 0 {
        seq![]
    } else if members[0].0 == key {
        members[0].1
    } else {
        key_value(members.drop_first(), key)
    }
}

/// The value under a key that occurs exactly once; a missing or repeated key
/// yields nothing.
pub open spec fn lookup_unique(members: Seq<(Seq<char>, Seq<char>)>, key: Seq<char>) -> Option<
    Seq<char>,
> {
    if key_count(members, key) == 1 {
        Some(key_value(members, key))
    } else {
        None
    }
}

/// The value under a key that may be absent: absent reads as empty, one
/// occurrence reads as its value, a repeated key yields nothing.
pub open spec fn lookup_optional(members: Seq<(Seq<char>, Seq<char>)>, key: Seq<char>) -> Option<
    Seq<char>,
> {
    if key_count(members, key) == 0 {
        Some(Seq::<char>::empty())
    } else if key_count(members, key) == 1 {
        Some(key_value(members, key))
    } else {
        None
    }
}

/// The event a member list denotes: `orderId` must be present exactly once;
/// the `courierId` correlation is optional (a missing one reads as empty)
/// but must not repeat; other members are ignored.
pub open spec fn event_of_members(members: Seq<(Seq<char>, Seq<char>)>) -> Option<OrderEventView> {
    match (lookup_unique(members, "orderId"@), lookup_optional(members, "courierId"@)) {
        (Some(o), Some(c)) => Some(OrderEventView { order_id: o, courier_id: c }),
        _ => None,
    }
}

/// The event a text payload denotes.
pub open spec fn event_of_chars(cs: Seq<char>) -> Option<OrderEventView> {
    match parse_flat_object(cs) {
        Some(members) => event_of_members(members),
        None => None,
    }
}

/// The event a byte payload denotes: the bytes must be valid UTF-8 and the
/// text must match the wire grammar.
pub open spec fn event_of_bytes(b: Seq<u8>) -> Option<OrderEventView> {
    match decoded_text(b) {
        Some(cs) => event_of_chars(cs),
        None => None,
    }
}

/// A character that JSON escaping leaves as itself.
pub open spec fn plain_char(c: char) -> bool {
    c != '"' && c != '\\' && (c as u32) >= 0x20
}

/// Escaping changes nothing in text made of plain characters.
proof fn lemma_escape_plain(s: Seq<char>)
    requires
        forall|t: int| 0 <= t < s.len() ==> plain_char(#[trigger] s[t]),
    ensures
        escape_string(s) == s,
    decreases s.len(),
{
    reveal_with_fuel(escape_string, 2);
    if s.len() == 0 {
        assert(escape_string(s) =~= s);
    } else {
        assert(plain_char(s[0]));
        assert(escape_char(s[0]) =~= seq![s[0]]);
        lemma_escape_plain(s.drop_first());
        assert(seq![s[0]] + s.drop_first() =~= s);
    }
}

proof fn lemma_skip_ws_here(cs: Seq<char>, i: int)
    requires
        0 <= i <= cs.len(),
        i == cs.len() || !is_ws(cs[i]),
    ensures
        skip_ws(cs, i) == i,
{
}

proof fn lemma_hex_val_digit(v: int)
    requires
        0 <= v < 16,
    ensures
        hex_val(hex_digit(v)) == Some(v as u32),
{
}

/// The scanner inverts the escaper: at a position where the text holds the
/// escaped form of `s` followed by a closing quote, scanning yields exactly
/// `s` and stops just past that quote.
proof fn lemma_parse_body_escaped(cs: Seq<char>, i: int, s: Seq<char>)
    requires
        0 <= i,
        i + escape_string(s).len() + 1 <= cs.len(),
        cs.subrange(i, i + escape_string(s).len() + 1) == escape_string(s) + seq!['"'],
    ensures
        parse_string_body(cs, i) == Some((s, i + escape_string(s).len() + 1)),
    decreases s.len(),
{
    reveal_with_fuel(escape_string, 2);
    broadcast use vstd::utf8::char_is_scalar, vstd::utf8::char_u32_cast;

    let l = escape_string(s).len() as int;
    let window = cs.subrange(i, i + l + 1);
    if s.len() == 0 {
        assert(window[0] == cs[i]);
        assert((escape_string(s) + seq!['"'])[0] == '"');
        assert(cs[i] == '"');
        assert(s =~= Seq::<char>::empty());
    } else {
        let c0 = s[0];
        let e0 = escape_char(c0);
        let l0 = e0.len() as int;
        let rest = s.drop_first();
        let erest = escape_string(rest);
        assert(escape_string(s) == e0 + erest);
        assert forall|t: int| 0 <= t < l0 implies cs[i + t] == #[trigger] e0[t] by {
            assert(window[t] == cs[i + t]);
            assert((escape_string(s) + seq!['"'])[t] == escape_string(s)[t]);
            assert((e0 + erest)[t] == e0[t]);
        }
        assert(cs.subrange(i + l0, i + l + 1) =~= erest + seq!['"']) by {
            assert forall|t: int|
                0 <= t < l - l0 + 1 implies cs.subrange(i + l0, i + l + 1)[t] == (erest
                + seq!['"'])[t] by {
                assert(cs.subrange(i + l0, i + l + 1)[t] == cs[i + l0 + t]);
                assert(cs[i + l0 + t] == window[l0 + t]);
                if l0 + t < l {
                    assert((escape_string(s) + seq!['"'])[l0 + t] == escape_string(s)[l0 + t]);
                    assert((e0 + erest)[l0 + t] == erest[t]);
                    assert((erest + seq!['"'])[t] == erest[t]);
                } else {
                    assert((escape_string(s) + seq!['"'])[l0 + t] == '"');
                    assert((erest + seq!['"'])[t] == '"');
                }
            }
        }
        lemma_parse_body_escaped(cs, i + l0, rest);
        assert(parse_string_body(cs, i + l0) == Some((rest, i + l + 1)));
        if c0 == '"' {
            assert(cs[i] == e0[0] && cs[i + 1] == e0[1]);
            assert(cs[i] == '\\' && cs[i + 1] == '"');
            assert(simple_unescape(cs[i + 1]) == Some('"'));
            assert(parse_string_body(cs, i) == Some((seq![c0] + rest, i + l + 1)));
        } else if c0 == '\\' {
            assert(cs[i] == e0[0] && cs[i + 1] == e0[1]);
            assert(cs[i] == '\\' && cs[i + 1] == '\\');
            assert(parse_string_body(cs, i) == Some((seq![c0] + rest, i + l + 1)));
        } else if c0 == '\u{8}' || c0 == '\u{9}' || c0 == '\u{a}' || c0 == '\u{c}' || c0
            == '\u{d}' {
            assert(cs[i] == e0[0] && cs[i + 1] == e0[1]);
            assert(cs[i] == '\\');
            assert(simple_unescape(cs[i + 1]) == Some(c0));
            assert(cs[i + 1] != 'u');
            assert(parse_string_body(cs, i) == Some((seq![c0] + rest, i + l + 1)));
        } else if (c0 as u32) < 0x20 {
            let code = c0 as u32;
            assert(cs[i] == e0[0] && cs[i + 1] == e0[1] && cs[i + 2] == e0[2] && cs[i + 3]
                == e0[3] && cs[i + 4] == e0[4] && cs[i + 5] == e0[5]);
            assert(cs[i] == '\\' && cs[i + 1] == 'u' && cs[i + 2] == '0' && cs[i + 3] == '0');
            assert(cs[i + 4] == hex_digit((code >> 4u32) as int));
            assert(cs[i + 5] == hex_digit((code & 0xf) as int));
            assert(code >> 4u32 < 16u32 && code & 0xfu32 < 16u32 && (code >> 4u32) * 16 + (code
                & 0xfu32) == code) by (bit_vector)
                requires
                    code < 0x20u32,
            ;
            lemma_hex_val_digit((code >> 4u32) as int);
            lemma_hex_val_digit((code & 0xfu32) as int);
            assert(hex_val(cs[i + 2]) == Some(0u32));
            assert(hex_val(cs[i + 3]) == Some(0u32));
            let ghost total = 0u32 * 0x1000 + 0u32 * 0x100 + (code >> 4u32) * 0x10 + (code
                & 0xfu32);
            assert(total == code);
            assert(total as u32 == code);
            vstd::utf8::char_u32_cast(c0, code);
            assert(code as char == c0);
            assert(parse_string_body(cs, i) == Some((seq![c0] + rest, i + l + 1)));
        } else {
            assert(e0 == seq![c0]);
            assert(cs[i] == e0[0]);
            assert(cs[i] == c0);
            assert(parse_string_body(cs, i) == Some((seq![c0] + rest, i + l + 1)));
        }
        assert(seq![c0] + rest =~= s);
    }
}

/// Scanning a quoted, escaped occurrence of `s` yields `s` itself.
proof fn lemma_parse_quoted(cs: Seq<char>, i: int, s: Seq<char>)
    requires
        0 <= i,
        i + escape_string(s).len() + 2 <= cs.len(),
        cs.subrange(i, i + escape_string(s).len() + 2) == seq!['"'] + escape_string(s)
            + seq!['"'],
    ensures
        parse_string(cs, i) == Some((s, i + escape_string(s).len() + 2)),
{
    let l = escape_string(s).len() as int;
    let window = cs.subrange(i, i + l + 2);
    assert(window[0] == cs[i]);
    assert((seq!['"'] + escape_string(s) + seq!['"'])[0] == (seq!['"'] + escape_string(s))[0]);
    assert(cs[i] == '"');
    assert(cs.subrange(i + 1, i + 1 + l + 1) =~= escape_string(s) + seq!['"']) by {
        assert forall|t: int|
            0 <= t < l + 1 implies cs.subrange(i + 1, i + 1 + l + 1)[t] == (escape_string(s)
            + seq!['"'])[t] by {
            assert(cs.subrange(i + 1, i + 1 + l + 1)[t] == cs[i + 1 + t]);
            assert(cs[i + 1 + t] == window[1 + t]);
            if 1 + t < l + 1 {
                assert((seq!['"'] + escape_string(s) + seq!['"'])[1 + t] == (seq!['"']
                    + escape_string(s))[1 + t]);
                assert((seq!['"'] + escape_string(s))[1 + t] == escape_string(s)[t]);
                assert((escape_string(s) + seq!['"'])[t] == escape_string(s)[t]);
            } else {
                assert((seq!['"'] + escape_string(s) + seq!['"'])[1 + t] == '"');
                assert((escape_string(s) + seq!['"'])[t] == '"');
            }
        }
    }
    lemma_parse_body_escaped(cs, i + 1, s);
}

proof fn lemma_key_order_id_plain()
    ensures
        escape_string("orderId"@) == "orderId"@,
        "orderId"@.len() == 7,
{
    reveal_strlit("orderId");
    let k = "orderId"@;
    assert(k[0] == 'o' && k[1] == 'r' && k[2] == 'd' && k[3] == 'e' && k[4] == 'r' && k[5] == 'I'
        && k[6] == 'd');
    assert forall|t: int| 0 <= t < k.len() implies plain_char(#[trigger] k[t]) by {
        if t == 0 {
        } else if t == 1 {
        } else if t == 2 {
        } else if t == 3 {
        } else if t == 4 {
        } else if t == 5 {
        } else {
            assert(t == 6);
        }
    }
    lemma_escape_plain(k);
}

proof fn lemma_key_courier_id_plain()
    ensures
        escape_string("courierId"@) == "courierId"@,
        "courierId"@.len() == 9,
{
    reveal_strlit("courierId");
    let k = "courierId"@;
    assert(k[0] == 'c' && k[1] == 'o' && k[2] == 'u' && k[3] == 'r' && k[4] == 'i' && k[5] == 'e'
        && k[6] == 'r' && k[7] == 'I' && k[8] == 'd');
    assert forall|t: int| 0 <= t < k.len() implies plain_char(#[trigger] k[t]) by {
        if t == 0 {
        } else if t == 1 {
        } else if t == 2 {
        } else if t == 3 {
        } else if t == 4 {
        } else if t == 5 {
        } else if t == 6 {
        } else if t == 7 {
        } else {
            assert(t == 8);
        }
    }
    lemma_escape_plain(k);
}

/// The canonical event JSON parses as a flat object of exactly its two
/// members, in order.
#[verifier::rlimit(80)]
#[verifier::spinoff_prover]
proof fn lemma_event_json_members(e: OrderEventView)
    ensures
        parse_flat_object(event_json(e)) == Some(
            seq![("orderId"@, e.order_id), ("courierId"@, e.courier_id)],
        ),
{
    reveal_strlit("{\"orderId\":\"");
    reveal_strlit("\",\"courierId\":\"");
    reveal_strlit("\"}");
    reveal_strlit("orderId");
    reveal_strlit("courierId");
    reveal_with_fuel(parse_members, 3);
    lemma_key_order_id_plain();
    lemma_key_courier_id_plain();

    let k1 = "orderId"@;
    let k2 = "courierId"@;
    let l1t = "{\"orderId\":\""@;
    let l2t = "\",\"courierId\":\""@;
    let l3t = "\"}"@;
    let e1 = escape_string(e.order_id);
    let e2 = escape_string(e.courier_id);
    let n1 = e1.len() as int;
    let n2 = e2.len() as int;
    let cs = event_json(e);

    assert(l1t.len() == 12);
    assert(l2t.len() == 15);
    assert(l3t.len() == 2);
    assert(l1t[0] == '{' && l1t[1] == '"' && l1t[2] == 'o' && l1t[3] == 'r' && l1t[4] == 'd'
        && l1t[5] == 'e' && l1t[6] == 'r' && l1t[7] == 'I' && l1t[8] == 'd' && l1t[9] == '"'
        && l1t[10] == ':' && l1t[11] == '"');
    assert(l2t[0] == '"' && l2t[1] == ',' && l2t[2] == '"' && l2t[3] == 'c' && l2t[4] == 'o'
        && l2t[5] == 'u' && l2t[6] == 'r' && l2t[7] == 'i' && l2t[8] == 'e' && l2t[9] == 'r'
        && l2t[10] == 'I' && l2t[11] == 'd' && l2t[12] == '"' && l2t[13] == ':' && l2t[14] == '"');
    assert(l3t[0] == '"' && l3t[1] == '}');
    assert(k1[0] == 'o' && k1[1] == 'r' && k1[2] == 'd' && k1[3] == 'e' && k1[4] == 'r' && k1[5]
        == 'I' && k1[6] == 'd');
    assert(k2[0] == 'c' && k2[1] == 'o' && k2[2] == 'u' && k2[3] == 'r' && k2[4] == 'i' && k2[5]
        == 'e' && k2[6] == 'r' && k2[7] == 'I' && k2[8] == 'd');

    let p1 = l1t + e1;
    let p2 = p1 + l2t;
    let p3 = p2 + e2;
    assert(cs == p3 + l3t);
    assert(cs.len() == 29 + n1 + n2);

    // Every character of the payload, by region.
    assert forall|t: int| 0 <= t < cs.len() implies #[trigger] cs[t] == (if t < 12 {
        l1t[t]
    } else if t < 12 + n1 {
        e1[t - 12]
    } else if t < 27 + n1 {
        l2t[t - 12 - n1]
    } else if t < 27 + n1 + n2 {
        e2[t - 27 - n1]
    } else {
        l3t[t - 27 - n1 - n2]
    }) by {
        assert(cs[t] == (p3 + l3t)[t]);
        if t < 27 + n1 + n2 {
            assert((p3 + l3t)[t] == p3[t]);
            if t < 27 + n1 {
                assert(p3[t] == p2[t]);
                if t < 12 + n1 {
                    assert(p2[t] == p1[t]);
                } else {
                    assert(p2[t] == l2t[t - 12 - n1]);
                }
            } else {
                assert(p3[t] == e2[t - 27 - n1]);
            }
        } else {
            assert((p3 + l3t)[t] == l3t[t - 27 - n1 - n2]);
        }
    }

    // The four quoted spans.
    assert(cs.subrange(1, 10) =~= seq!['"'] + k1 + seq!['"']) by {
        assert forall|u: int| 0 <= u < 9 implies cs.subrange(1, 10)[u] == (seq!['"'] + k1
            + seq!['"'])[u] by {
            assert(cs.subrange(1, 10)[u] == cs[1 + u]);
            if u == 0 {
                assert((seq!['"'] + k1 + seq!['"'])[0] == (seq!['"'] + k1)[0]);
            } else if u < 8 {
                assert((seq!['"'] + k1 + seq!['"'])[u] == (seq!['"'] + k1)[u]);
                assert((seq!['"'] + k1)[u] == k1[u - 1]);
            } else {
                assert((seq!['"'] + k1 + seq!['"'])[u] == '"');
            }
        }
    }
    assert(cs.subrange(11, 13 + n1) =~= seq!['"'] + e1 + seq!['"']) by {
        assert forall|u: int| 0 <= u < n1 + 2 implies cs.subrange(11, 13 + n1)[u] == (seq!['"']
            + e1 + seq!['"'])[u] by {
            assert(cs.subrange(11, 13 + n1)[u] == cs[11 + u]);
            if u == 0 {
                assert((seq!['"'] + e1 + seq!['"'])[0] == (seq!['"'] + e1)[0]);
            } else if u < n1 + 1 {
                assert((seq!['"'] + e1 + seq!['"'])[u] == (seq!['"'] + e1)[u]);
                assert((seq!['"'] + e1)[u] == e1[u - 1]);
            } else {
                assert((seq!['"'] + e1 + seq!['"'])[u] == '"');
                assert(cs[12 + n1] == l2t[0]);
            }
        }
    }
    assert(cs.subrange(14 + n1, 25 + n1) =~= seq!['"'] + k2 + seq!['"']) by {
        assert forall|u: int| 0 <= u < 11 implies cs.subrange(14 + n1, 25 + n1)[u] == (seq!['"']
            + k2 + seq!['"'])[u] by {
            assert(cs.subrange(14 + n1, 25 + n1)[u] == cs[14 + n1 + u]);
            assert(cs[14 + n1 + u] == l2t[2 + u]);
            if u == 0 {
                assert((seq!['"'] + k2 + seq!['"'])[0] == (seq!['"'] + k2)[0]);
            } else if u < 10 {
                assert((seq!['"'] + k2 + seq!['"'])[u] == (seq!['"'] + k2)[u]);
                assert((seq!['"'] + k2)[u] == k2[u - 1]);
            } else {
                assert((seq!['"'] + k2 + seq!['"'])[u] == '"');
            }
        }
    }
    assert(cs.subrange(26 + n1, 28 + n1 + n2) =~= seq!['"'] + e2 + seq!['"']) by {
        assert forall|u: int| 0 <= u < n2 + 2 implies cs.subrange(26 + n1, 28 + n1 + n2)[u] == (
        seq!['"'] + e2 + seq!['"'])[u] by {
            assert(cs.subrange(26 + n1, 28 + n1 + n2)[u] == cs[26 + n1 + u]);
            if u == 0 {
                assert(cs[26 + n1] == l2t[14]);
                assert((seq!['"'] + e2 + seq!['"'])[0] == (seq!['"'] + e2)[0]);
            } else if u < n2 + 1 {
                assert(cs[26 + n1 + u] == e2[u - 1]);
                assert((seq!['"'] + e2 + seq!['"'])[u] == (seq!['"'] + e2)[u]);
                assert((seq!['"'] + e2)[u] == e2[u - 1]);
            } else {
                assert(cs[27 + n1 + n2] == l3t[0]);
                assert((seq!['"'] + e2 + seq!['"'])[u] == '"');
            }
        }
    }

    // The four string literals of the payload.
    lemma_parse_quoted(cs, 1, k1);
    assert(parse_string(cs, 1) == Some((k1, 10int)));
    lemma_parse_quoted(cs, 11, e.order_id);
    assert(parse_string(cs, 11) == Some((e.order_id, 13 + n1)));
    lemma_parse_quoted(cs, 14 + n1, k2);
    assert(parse_string(cs, 14 + n1) == Some((k2, 25 + n1)));
    lemma_parse_quoted(cs, 26 + n1, e.courier_id);
    assert(parse_string(cs, 26 + n1) == Some((e.courier_id, 28 + n1 + n2)));

    // No whitespace stands anywhere the grammar would allow it.
    assert(cs[0] == '{' && cs[1] == '"' && cs[10] == ':' && cs[11] == '"');
    assert(cs[13 + n1] == ',' && cs[14 + n1] == '"' && cs[25 + n1] == ':' && cs[26 + n1] == '"');
    assert(cs[28 + n1 + n2] == '}');
    lemma_skip_ws_here(cs, 0);
    lemma_skip_ws_here(cs, 1);
    lemma_skip_ws_here(cs, 10);
    lemma_skip_ws_here(cs, 11);
    lemma_skip_ws_here(cs, 13 + n1);
    lemma_skip_ws_here(cs, 14 + n1);
    lemma_skip_ws_here(cs, 25 + n1);
    lemma_skip_ws_here(cs, 26 + n1);
    lemma_skip_ws_here(cs, 28 + n1 + n2);
    lemma_skip_ws_here(cs, 29 + n1 + n2);

    // The member chain.
    assert(parse_member(cs, 1) == Some((("orderId"@, e.order_id), 13 + n1)));
    assert(parse_member(cs, 14 + n1) == Some((("courierId"@, e.courier_id), 28 + n1 + n2)));
    assert(parse_members(cs, 14 + n1) == Some(
        (seq![("courierId"@, e.courier_id)], 29 + n1 + n2),
    ));
    assert(parse_members(cs, 1) == Some(
        (
            seq![("orderId"@, e.order_id)] + seq![("courierId"@, e.courier_id)],
            29 + n1 + n2,
        ),
    ));
    assert(seq![("orderId"@, e.order_id)] + seq![("courierId"@, e.courier_id)] =~= seq![
        ("orderId"@, e.order_id),
        ("courierId"@, e.courier_id),
    ]);
}

/// Decoding inverts encoding: the canonical JSON of any event denotes that
/// event again, so a published body deserializes back to what was published.
pub proof fn lemma_event_json_round_trip(e: OrderEventView)
    ensures
        event_of_chars(event_json(e)) == Some(e),
{
    reveal_with_fuel(key_count, 3);
    reveal_with_fuel(key_value, 3);
    reveal_strlit("orderId");
    reveal_strlit("courierId");
    lemma_event_json_members(e);
    let members = seq![("orderId"@, e.order_id), ("courierId"@, e.courier_id)];
    assert("orderId"@.len() == 7 && "courierId"@.len() == 9);
    assert("orderId"@ != "courierId"@);
    assert(members.drop_first() =~= seq![("courierId"@, e.courier_id)]);
    assert(members.drop_first().drop_first() =~= Seq::<(Seq<char>, Seq<char>)>::empty());
    assert(key_count(members, "orderId"@) == 1);
    assert(key_value(members, "orderId"@) == e.order_id);
    assert(key_count(members, "courierId"@) == 1);
    assert(key_value(members, "courierId"@) == e.courier_id);
    assert(event_of_members(members) == Some(OrderEventView { order_id: e.order_id, courier_id: e.courier_id }));
    assert(e == OrderEventView { order_id: e.order_id, courier_id: e.courier_id });
}

/// Scans one JSON string literal of `s` starting at its opening quote.
fn scan_string(s: &str, i: usize) -> (r: Option<(String, usize)>)
    requires
        i <= s@.len(),
    ensures
        match r {
            Some(p) => parse_string(s@, i as int) == Some((p.0@, p.1 as int)) && i < p.1
                <= s@.len(),
            None => parse_string(s@, i as int) is None,
        },
{
    let n = s.unicode_len();
    if i == n {
        return None;
    }
    if s.get_char(i) != '"' {
        return None;
    }
    let mut out = String::new();
    let mut j = i + 1;
    proof {
        assert(Seq::<char>::empty() + Seq::<char>::empty() =~= Seq::<char>::empty());
    }
    loop
        invariant
            i + 1 <= j <= n,
            n == s@.len(),
            i < n,
            s@[i as int] == '"',
            parse_string_body(s@, i as int + 1) == (match parse_string_body(s@, j as int) {
                Some((rest, e)) => Some((out@ + rest, e)),
                None => None::<(Seq<char>, int)>,
            }),
        decreases n - j,
    {
        if j == n {
            return None;
        }
        let c = s.get_char(j);
        if c == '"' {
            proof {
                assert(out@ + Seq::<char>::empty() =~= out@);
            }
            return Some((out, j + 1));
        }
        if c == '\\' {
            if j + 1 == n {
                return None;
            }
            let e = s.get_char(j + 1);
            if e == 'u' {
                if n - j < 6 {
                    return None;
                }
                let a = match hex_val_exec(s.get_char(j + 2)) {
                    Some(v) => v,
                    None => {
                        return None;
                    },
                };
                let b = match hex_val_exec(s.get_char(j + 3)) {
                    Some(v) => v,
                    None => {
                        return None;
                    },
                };
                let c2 = match hex_val_exec(s.get_char(j + 4)) {
                    Some(v) => v,
                    None => {
                        return None;
                    },
                };
                let d = match hex_val_exec(s.get_char(j + 5)) {
                    Some(v) => v,
                    None => {
                        return None;
                    },
                };
                let v = a * 0x1000 + b * 0x100 + c2 * 0x10 + d;
                if 0xD800 <= v && v <= 0xDFFF {
                    return None;
                }
                let ghost before = out@;
                let ch = char_from_u32(v);
                push_char(&mut out, ch);
                proof {
                    vstd::utf8::char_u32_cast(ch, v);
                    assert(before.push(ch) =~= before + seq![v as char]);
                    assert(forall|rest: Seq<char>|
                        (before + seq![v as char]) + rest =~= before + (#[trigger] (seq![
                            v as char,
                        ] + rest)));
                }
                j = j + 6;
            } else {
                let c2 = match simple_unescape_exec(e) {
                    Some(v) => v,
                    None => {
                        return None;
                    },
                };
                let ghost before = out@;
                push_char(&mut out, c2);
                proof {
                    assert(forall|rest: Seq<char>|
                        (before.push(c2)) + rest =~= before + (#[trigger] (seq![c2] + rest)));
                }
                j = j + 2;
            }
        } else if (c as u32) < 0x20 {
            return None;
        } else {
            let ghost before = out@;
            push_char(&mut out, c);
            proof {
                assert(forall|rest: Seq<char>|
                    (before.push(c)) + rest =~= before + (#[trigger] (seq![c] + rest)));
            }
            j = j + 1;
        }
    }
}

/// Scans one `"key" : "value"` member of `s`.
fn scan_member(s: &str, i: usize) -> (r: Option<((String, String), usize)>)
    requires
        i <= s@.len(),
    ensures
        match r {
            Some(p) => parse_member(s@, i as int) == Some((((p.0).0@, (p.0).1@), p.1 as int)) && i
                < p.1 <= s@.len(),
            None => parse_member(s@, i as int) is None,
        },
{
    let n = s.unicode_len();
    let (key, j) = match scan_string(s, i) {
        Some(p) => p,
        None => {
            return None;
        },
    };
    let k = skip_ws_exec(s, j);
    if k == n {
        return None;
    }
    if s.get_char(k) != ':' {
        return None;
    }
    let m = skip_ws_exec(s, k + 1);
    let (value, e) = match scan_string(s, m) {
        Some(p) => p,
        None => {
            return None;
        },
    };
    Some(((key, value), e))
}

/// The view of a scanned member list.
pub open spec fn members_view(mv: Seq<(String, String)>) -> Seq<(Seq<char>, Seq<char>)> {
    Seq::new(mv.len(), |i: int| (mv[i].0@, mv[i].1@))
}

/// Scans the members of `s` up to and including the closing brace.
fn scan_members(s: &str, i: usize) -> (r: Option<(Vec<(String, String)>, usize)>)
    requires
        i <= s@.len(),
    ensures
        match r {
            Some(p) => parse_members(s@, i as int) == Some((members_view(p.0@), p.1 as int)) && p.1
                <= s@.len(),
            None => parse_members(s@, i as int) is None,
        },
{
    let n = s.unicode_len();
    let mut acc: Vec<(String, String)> = Vec::new();
    let mut j = i;
    proof {
        assert(members_view(acc@) =~= Seq::<(Seq<char>, Seq<char>)>::empty());
    }
    loop
        invariant
            i <= j <= n,
            n == s@.len(),
            parse_members(s@, i as int) == (match parse_members(s@, j as int) {
                Some((rest, e)) => Some((members_view(acc@) + rest, e)),
                None => None::<(Seq<(Seq<char>, Seq<char>)>, int)>,
            }),
        decreases n - j,
    {
        let (kv, j2) = match scan_member(s, j) {
            Some(p) => p,
            None => {
                return None;
            },
        };
        let k = skip_ws_exec(s, j2);
        let ghost acc_before = acc@;
        if k < n && s.get_char(k) == ',' {
            let m = skip_ws_exec(s, k + 1);
            acc.push(kv);
            proof {
                assert(members_view(acc@) =~= members_view(acc_before).push(
                    (acc@[acc@.len() - 1].0@, acc@[acc@.len() - 1].1@),
                ));
                assert(forall|rest: Seq<(Seq<char>, Seq<char>)>, h: (Seq<char>, Seq<char>)|
                    (members_view(acc_before).push(h)) + rest =~= members_view(acc_before) + (
                    #[trigger] (seq![h] + rest)));
            }
            j = m;
        } else if k < n && s.get_char(k) == '}' {
            acc.push(kv);
            proof {
                assert(members_view(acc@) =~= members_view(acc_before).push(
                    (acc@[acc@.len() - 1].0@, acc@[acc@.len() - 1].1@),
                ));
                assert(members_view(acc_before).push((acc@[acc@.len() - 1].0@, acc@[acc@.len()
                    - 1].1@)) =~= members_view(acc_before) + seq![
                    (acc@[acc@.len() - 1].0@, acc@[acc@.len() - 1].1@),
                ]);
            }
            return Some((acc, k + 1));
        } else {
            return None;
        }
    }
}

/// Scans a whole payload as one flat JSON object with string values.
fn scan_flat_object(s: &str) -> (r: Option<Vec<(String, String)>>)
    ensures
        match r {
            Some(mv) => parse_flat_object(s@) == Some(members_view(mv@)),
            None => parse_flat_object(s@) is None,
        },
{
    let n = s.unicode_len();
    let i = skip_ws_exec(s, 0);
    if i == n {
        return None;
    }
    if s.get_char(i) != '{' {
        return None;
    }
    let j = skip_ws_exec(s, i + 1);
    if j < n && s.get_char(j) == '}' {
        if skip_ws_exec(s, j + 1) == n {
            let mv: Vec<(String, String)> = Vec::new();
            proof {
                assert(members_view(mv@) =~= Seq::<(Seq<char>, Seq<char>)>::empty());
            }
            return Some(mv);
        } else {
            return None;
        }
    }
    let (mv, k) = match scan_members(s, j) {
        Some(p) => p,
        None => {
            return None;
        },
    };
    if skip_ws_exec(s, k) == n {
        Some(mv)
    } else {
        None
    }
}

proof fn lemma_key_count_push(
    ms: Seq<(Seq<char>, Seq<char>)>,
    kv: (Seq<char>, Seq<char>),
    key: Seq<char>,
)
    ensures
        key_count(ms.push(kv), key) == key_count(ms, key) + (if kv.0 == key {
            1nat
        } else {
            0nat
        }),
        key_count(ms, key) > 0 ==> key_value(ms.push(kv), key) == key_value(ms, key),
        key_count(ms, key) == 0 && kv.0 == key ==> key_value(ms.push(kv), key) == kv.1,
    decreases ms.len(),
{
    reveal_with_fuel(key_count, 3);
    reveal_with_fuel(key_value, 3);
    if ms.len() == 0 {
        assert(ms.push(kv)[0] == kv);
        assert(ms.push(kv).drop_first() =~= Seq::<(Seq<char>, Seq<char>)>::empty());
    } else {
        assert(ms.push(kv)[0] == ms[0]);
        assert(ms.push(kv).drop_first() =~= ms.drop_first().push(kv));
        lemma_key_count_push(ms.drop_first(), kv, key);
    }
}

/// Counts the members carrying `key` and picks the first such value.
fn find_unique(members: &Vec<(String, String)>, key: &str) -> (r: Option<String>)
    ensures
        match r {
            Some(v) => lookup_unique(members_view(members@), key@) == Some(v@),
            None => lookup_unique(members_view(members@), key@) is None,
        },
{
    let n = members.len();
    let mut count: usize = 0;
    let mut found: Option<&String> = None;
    let mut i: usize = 0;
    proof {
        assert(members_view(members@).take(0) =~= Seq::<(Seq<char>, Seq<char>)>::empty());
    }
    while i < n
        invariant
            i <= n,
            n == members@.len(),
            count <= i,
            count == key_count(members_view(members@).take(i as int), key@),
            count > 0 <==> found is Some,
            found matches Some(v) ==> v@ == key_value(
                members_view(members@).take(i as int),
                key@,
            ),
        decreases n - i,
    {
        let ghost prefix = members_view(members@).take(i as int);
        proof {
            lemma_key_count_push(prefix, (members@[i as int].0@, members@[i as int].1@), key@);
            assert(prefix.push((members@[i as int].0@, members@[i as int].1@)) =~= members_view(
                members@,
            ).take(i as int + 1));
        }
        if str_eq(members[i].0.as_str(), key) {
            if count == 0 {
                found = Some(&members[i].1);
            }
            count = count + 1;
        }
        i = i + 1;
    }
    proof {
        assert(members_view(members@).take(n as int) =~= members_view(members@));
    }
    if count == 1 {
        match found {
            Some(v) => Some(v.clone()),
            None => None,
        }
    } else {
        None
    }
}

/// Counts the members carrying `key` and picks the first such value; an
/// absent key reads as the empty string, a repeated key as nothing.
fn find_optional(members: &Vec<(String, String)>, key: &str) -> (r: Option<String>)
    ensures
        match r {
            Some(v) => lookup_optional(members_view(members@), key@) == Some(v@),
            None => lookup_optional(members_view(members@), key@) is None,
        },
{
    let n = members.len();
    let mut count: usize = 0;
    let mut found: Option<&String> = None;
    let mut i: usize = 0;
    proof {
        assert(members_view(members@).take(0) =~= Seq::<(Seq<char>, Seq<char>)>::empty());
    }
    while i < n
        invariant
            i <= n,
            n == members@.len(),
            count <= i,
            count == key_count(members_view(members@).take(i as int), key@),
            count > 0 <==> found is Some,
            found matches Some(v) ==> v@ == key_value(
                members_view(members@).take(i as int),
                key@,
            ),
        decreases n - i,
    {
        let ghost prefix = members_view(members@).take(i as int);
        proof {
            lemma_key_count_push(prefix, (members@[i as int].0@, members@[i as int].1@), key@);
            assert(prefix.push((members@[i as int].0@, members@[i as int].1@)) =~= members_view(
                members@,
            ).take(i as int + 1));
        }
        if str_eq(members[i].0.as_str(), key) {
            if count == 0 {
                found = Some(&members[i].1);
            }
            count = count + 1;
        }
        i = i + 1;
    }
    proof {
        assert(members_view(members@).take(n as int) =~= members_view(members@));
    }
    if count == 0 {
        Some(String::new())
    } else if count == 1 {
        match found {
            Some(v) => Some(v.clone()),
            None => None,
        }
    } else {
        None
    }
}

impl OrderEvent {
    /// Decodes an event from its wire bytes: the payload must be UTF-8 text
    /// matching the flat-object wire grammar and must carry `orderId`
    /// exactly once; the optional `courierId` correlation reads as empty
    /// when absent and must not repeat. Anything else is a codec error.
    pub fn from_bytes(bytes: &[u8]) -> (r: Result<OrderEvent, OrderServiceError>)
        ensures
            r matches Ok(e) ==> event_of_bytes(bytes@) == Some(e@),
            r is Err <==> event_of_bytes(bytes@) is None,
            r matches Err(e) ==> e matches OrderServiceError::CodecError(_),
    {
        let s = match bytes_to_string(bytes) {
            Some(s) => s,
            None => {
                return Err(
                    OrderServiceError::CodecError("event payload is not valid UTF-8".to_owned()),
                );
            },
        };
        let members = match scan_flat_object(s.as_str()) {
            Some(mv) => mv,
            None => {
                return Err(
                    OrderServiceError::CodecError(
                        "event payload is not a flat JSON object of strings".to_owned(),
                    ),
                );
            },
        };
        let order_id = match find_unique(&members, "orderId") {
            Some(v) => v,
            None => {
                return Err(
                    OrderServiceError::CodecError(
                        "event payload must carry orderId exactly once".to_owned(),
                    ),
                );
            },
        };
        let courier_id = match find_optional(&members, "courierId") {
            Some(v) => v,
            None => {
                return Err(
                    OrderServiceError::CodecError(
                        "event payload must not repeat courierId".to_owned(),
                    ),
                );
            },
        };
        Ok(OrderEvent { orderId: order_id, courierId: courier_id })
    }

    /// Renders the event as its canonical JSON text; rendering cannot fail.
    pub fn to_json_string(&self) -> (r: Result<String, OrderServiceError>)
        ensures
            r matches Ok(s) && s@ == event_json(self@),
    {
        let mut out = String::from_str("{\"orderId\":\"");
        append_escaped(&mut out, self.orderId.as_str());
        out.append("\",\"courierId\":\"");
        append_escaped(&mut out, self.courierId.as_str());
        out.append("\"}");
        proof {
            assert(out@ =~= event_json(self@));
        }
        Ok(out)
    }
}

} // verus!
