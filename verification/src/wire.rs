use vstd::prelude::*;
use vstd::string::StrSliceExecFns;
use vstd::string::StringExecFns;
use crate::feed::FeedItem;

verus! {

/// The hexadecimal digit for a value below sixteen, lower case.
pub open spec fn hex_digit(n: int) -> char
    recommends
        0 <= n < 16,
{
    if n == 0 {
        '0'
    } else if n == 1 {
        '1'
    } else if n == 2 {
        '2'
    } else if n == 3 {
        '3'
    } else if n == 4 {
        '4'
    } else if n == 5 {
        '5'
    } else if n == 6 {
        '6'
    } else if n == 7 {
        '7'
    } else if n == 8 {
        '8'
    } else if n == 9 {
        '9'
    } else if n == 10 {
        'a'
    } else if n == 11 {
        'b'
    } else if n == 12 {
        'c'
    } else if n == 13 {
        'd'
    } else if n == 14 {
        'e'
    } else {
        'f'
    }
}

/// How one character is written inside a JSON string: quotes, backslashes
/// and control characters are escaped, everything else stands as it is.
pub open spec fn escape_char(c: char) -> Seq<char> {
    if c == '"' {
        seq!['\\', '"']
    } else if c == '\\' {
        seq!['\\', '\\']
    } else if c == '\u{8}' {
        seq!['\\', 'b']
    } else if c == '\u{c}' {
        seq!['\\', 'f']
    } else if c == '\n' {
        seq!['\\', 'n']
    } else if c == '\r' {
        seq!['\\', 'r']
    } else if c == '\t' {
        seq!['\\', 't']
    } else if (c as u32) < 32 {
        seq!['\\', 'u', '0', '0', hex_digit((c as u32) as int / 16), hex_digit((c as u32) as int % 16)]
    } else {
        seq![c]
    }
}

/// A whole text escaped character by character.
pub open spec fn escape_seq(s: Seq<char>) -> Seq<char>
    decreases s.len(),
{
    if s.len() == 0 {
        Seq::empty()
    } else {
        escape_char(s.first()) + escape_seq(s.drop_first())
    }
}

/// A JSON string literal: the escaped text between double quotes.
pub open spec fn json_string(s: Seq<char>) -> Seq<char> {
    seq!['"'] + escape_seq(s) + seq!['"']
}

/// The wire form of one event: a JSON object with its seven fields, in this
/// fixed order, the six texts as JSON strings and the flag as a JSON bool.
pub open spec fn feed_item_json(it: FeedItem) -> Seq<char> {
    "{\"item_uuid\":"@ + json_string(it.item_uuid@) + ",\"timestamp\":"@ + json_string(
        it.timestamp@,
    ) + ",\"author_id\":"@ + json_string(it.author_id@) + ",\"author_name\":"@ + json_string(
        it.author_name@,
    ) + ",\"command_name\":"@ + json_string(it.command_name@) + ",\"command_output\":"@
        + json_string(it.command_output@) + ",\"test_item\":"@ + (if it.test_item {
        "true"@
    } else {
        "false"@
    }) + "}"@
}

/// Relies on String::push: appends exactly the one given character.
#[verifier::external_body]
fn push_char(s: &mut String, c: char)
    ensures
        final(s)@ == old(s)@.push(c),
{
    s.push(c);
}

/// Escaping distributes over extending the text by one character.
proof fn lemma_escape_seq_snoc(s: Seq<char>, x: char)
    ensures
        escape_seq(s.push(x)) == escape_seq(s) + escape_char(x),
    decreases s.len(),
{
    if s.len() == 0 {
        assert(s.push(x).drop_first() =~= Seq::<char>::empty());
        assert(s.push(x).first() == x);
        assert(escape_seq(Seq::<char>::empty()) == Seq::<char>::empty());
        assert(escape_seq(s.push(x)) =~= escape_seq(s) + escape_char(x));
    } else {
        assert(s.push(x).drop_first() =~= s.drop_first().push(x));
        lemma_escape_seq_snoc(s.drop_first(), x);
        assert(escape_seq(s.push(x)) =~= escape_seq(s) + escape_char(x));
    }
}

/// The lower-case hexadecimal digit for a value below sixteen.
fn hex_digit_exec(n: u32) -> (r: char)
    requires
        n < 16,
    ensures
        r == hex_digit(n as int),
{
    if n == 0 {
        '0'
    } else if n == 1 {
        '1'
    } else if n == 2 {
        '2'
    } else if n == 3 {
        '3'
    } else if n == 4 {
        '4'
    } else if n == 5 {
        '5'
    } else if n == 6 {
        '6'
    } else if n == 7 {
        '7'
    } else if n == 8 {
        '8'
    } else if n == 9 {
        '9'
    } else if n == 10 {
        'a'
    } else if n == 11 {
        'b'
    } else if n == 12 {
        'c'
    } else if n == 13 {
        'd'
    } else if n == 14 {
        'e'
    } else {
        'f'
    }
}

/// Appends the escaped form of one character.
fn append_escaped_char(out: &mut String, c: char)
    ensures
        final(out)@ == old(out)@ + escape_char(c),
{
    if c == '"' {
        push_char(out, '\\');
        push_char(out, '"');
    } else if c == '\\' {
        push_char(out, '\\');
        push_char(out, '\\');
    } else if c == '\u{8}' {
        push_char(out, '\\');
        push_char(out, 'b');
    } else if c == '\u{c}' {
        push_char(out, '\\');
        push_char(out, 'f');
    } else if c == '\n' {
        push_char(out, '\\');
        push_char(out, 'n');
    } else if c == '\r' {
        push_char(out, '\\');
        push_char(out, 'r');
    } else if c == '\t' {
        push_char(out, '\\');
        push_char(out, 't');
    } else if (c as u32) < 32 {
        let code = c as u32;
        push_char(out, '\\');
        push_char(out, 'u');
        push_char(out, '0');
        push_char(out, '0');
        push_char(out, hex_digit_exec(code / 16));
        push_char(out, hex_digit_exec(code % 16));
    } else {
        push_char(out, c);
    }
    proof {
        assert(out@ =~= old(out)@ + escape_char(c));
    }
}

/// Appends the JSON string form of a text: quoted and escaped.
fn append_json_string(out: &mut String, s: &str)
    ensures
        final(out)@ == old(out)@ + json_string(s@),
{
    push_char(out, '"');
    let n = s.unicode_len();
    let mut i: usize = 0;
    while i < n
        invariant
            i <= n,
            n == s@.len(),
            out@ == old(out)@ + seq!['"'] + escape_seq(s@.take(i as int)),
        decreases n - i,
    {
        let c = s.get_char(i);
        append_escaped_char(out, c);
        proof {
            lemma_escape_seq_snoc(s@.take(i as int), c);
            assert(s@.take(i + 1) =~= s@.take(i as int).push(c));
            assert(out@ =~= old(out)@ + seq!['"'] + escape_seq(s@.take(i + 1)));
        }
        i = i + 1;
    }
    push_char(out, '"');
    proof {
        assert(s@.take(n as int) =~= s@);
        assert(out@ =~= old(out)@ + json_string(s@));
    }
}

/// Renders one event as its wire message, exactly `feed_item_json`.
pub fn encode_feed_item(it: &FeedItem) -> (r: String)
    ensures
        r@ == feed_item_json(*it),
{
    let mut out = String::new();
    out.append("{\"item_uuid\":");
    append_json_string(&mut out, it.item_uuid.as_str());
    out.append(",\"timestamp\":");
    append_json_string(&mut out, it.timestamp.as_str());
    out.append(",\"author_id\":");
    append_json_string(&mut out, it.author_id.as_str());
    out.append(",\"author_name\":");
    append_json_string(&mut out, it.author_name.as_str());
    out.append(",\"command_name\":");
    append_json_string(&mut out, it.command_name.as_str());
    out.append(",\"command_output\":");
    append_json_string(&mut out, it.command_output.as_str());
    out.append(",\"test_item\":");
    if it.test_item {
        out.append("true");
    } else {
        out.append("false");
    }
    out.append("}");
    proof {
        assert(out@ =~= feed_item_json(*it));
    }
    out
}


/// JSON whitespace.
pub open spec fn is_json_ws(c: char) -> bool {
    c == ' ' || c == '\t' || c == '\n' || c == '\r'
}

/// The position of the first non-whitespace character at or after `i`.
pub open spec fn skip_ws_spec(s: Seq<char>, i: int) -> int
    recommends
        0 <= i <= s.len(),
    decreases s.len() - i when 0 <= i <= s.len()
{
    if i < s.len() && is_json_ws(s[i]) {
        skip_ws_spec(s, i + 1)
    } else {
        i
    }
}

/// Whether `lit` stands at position `i`; the position after it, if so.
pub open spec fn match_lit_spec(s: Seq<char>, i: int, lit: Seq<char>) -> Option<int> {
    if 0 <= i && i + lit.len() <= s.len() && s.subrange(i, i + lit.len()) == lit {
        Some(i + lit.len())
    } else {
        None
    }
}

/// A decimal digit.
pub open spec fn is_digit(c: char) -> bool {
    48 <= c as u32 <= 57
}

pub open spec fn digit_val(c: char) -> int {
    c as u32 - 48
}

/// End of the run of digits that starts at `i`.
pub open spec fn digits_end(s: Seq<char>, i: int) -> int
    recommends
        0 <= i <= s.len(),
    decreases s.len() - i when 0 <= i <= s.len()
{
    if i < s.len() && is_digit(s[i]) {
        digits_end(s, i + 1)
    } else {
        i
    }
}

/// The number a run of decimal digits denotes.
pub open spec fn digits_value(d: Seq<char>) -> int
    decreases d.len(),
{
    if d.len() == 0 {
        0
    } else {
        digits_value(d.drop_last()) * 10 + digit_val(d.last())
    }
}

/// After `i`: the member `"action" : "request_items"`, and the position
/// after it.
pub open spec fn parse_action_spec(s: Seq<char>, i: int) -> Option<int> {
    match match_lit_spec(s, i, "\"action\""@) {
        None => None,
        Some(j) => {
            let j1 = skip_ws_spec(s, j);
            if j1 < s.len() && s[j1] == ':' {
                let j2 = skip_ws_spec(s, j1 + 1);
                match_lit_spec(s, j2, "\"request_items\""@)
            } else {
                None
            }
        },
    }
}

/// After `i`: the member `"count" : <digits>`, its value and the position
/// after it.
pub open spec fn parse_count_spec(s: Seq<char>, i: int) -> Option<(int, int)> {
    match match_lit_spec(s, i, "\"count\""@) {
        None => None,
        Some(j) => {
            let j1 = skip_ws_spec(s, j);
            if j1 < s.len() && s[j1] == ':' {
                let j2 = skip_ws_spec(s, j1 + 1);
                let e = digits_end(s, j2);
                if e > j2 {
                    Some((digits_value(s.subrange(j2, e)), e))
                } else {
                    None
                }
            } else {
                None
            }
        },
    }
}

/// After the members, at `i`: the closing brace and then nothing more.
pub open spec fn parse_close_spec(s: Seq<char>, i: int) -> bool {
    let j = skip_ws_spec(s, i);
    &&& j < s.len()
    &&& s[j] == '}'
    &&& skip_ws_spec(s, j + 1) == s.len()
}

/// What a control message asks for. A message is a JSON object holding
/// exactly the member `"action": "request_items"` and a member `"count"`
/// with a run of digits, in either order, with JSON whitespace allowed
/// between tokens. Any other text denotes nothing.
pub open spec fn parse_control_spec(s: Seq<char>) -> Option<int> {
    let i0 = skip_ws_spec(s, 0);
    if !(i0 < s.len() && s[i0] == '{') {
        None
    } else {
        let i1 = skip_ws_spec(s, i0 + 1);
        match parse_action_spec(s, i1) {
            Some(j) => {
                let k = skip_ws_spec(s, j);
                if k < s.len() && s[k] == ',' {
                    let k1 = skip_ws_spec(s, k + 1);
                    match parse_count_spec(s, k1) {
                        Some(p) => if parse_close_spec(s, p.1) {
                            Some(p.0)
                        } else {
                            None
                        },
                        None => None,
                    }
                } else {
                    None
                }
            },
            None => match parse_count_spec(s, i1) {
                Some(p) => {
                    let k = skip_ws_spec(s, p.1);
                    if k < s.len() && s[k] == ',' {
                        let k1 = skip_ws_spec(s, k + 1);
                        match parse_action_spec(s, k1) {
                            Some(m) => if parse_close_spec(s, m) {
                                Some(p.0)
                            } else {
                                None
                            },
                            None => None,
                        }
                    } else {
                        None
                    }
                },
                None => None,
            },
        }
    }
}

/// Skips JSON whitespace.
fn skip_ws(s: &str, n: usize, i: usize) -> (r: usize)
    requires
        n == s@.len(),
        i <= n,
    ensures
        i <= r <= n,
        r as int == skip_ws_spec(s@, i as int),
{
    let mut j = i;
    loop
        invariant
            i <= j <= n,
            n == s@.len(),
            skip_ws_spec(s@, i as int) == skip_ws_spec(s@, j as int),
        ensures
            i <= j <= n,
            j as int == skip_ws_spec(s@, i as int),
        decreases n - j,
    {
        if j >= n {
            break ;
        }
        let c = s.get_char(j);
        if !(c == ' ' || c == '\t' || c == '\n' || c == '\r') {
            break ;
        }
        j = j + 1;
    }
    j
}

/// Whether `lit` stands at position `i` of `s`.
fn match_lit(s: &str, n: usize, i: usize, lit: &str, m: usize) -> (r: Option<usize>)
    requires
        n == s@.len(),
        m == lit@.len(),
        i <= n,
    ensures
        match r {
            Some(j) => match_lit_spec(s@, i as int, lit@) == Some(j as int) && i <= j <= n,
            None => match_lit_spec(s@, i as int, lit@) is None,
        },
{
    if m > n - i {
        return None;
    }
    let mut k: usize = 0;
    proof {
        assert(s@.subrange(i as int, i as int) =~= lit@.subrange(0, 0));
    }
    loop
        invariant
            k <= m,
            i + m <= n,
            n == s@.len(),
            m == lit@.len(),
            s@.subrange(i as int, i + k) == lit@.subrange(0, k as int),
        ensures
            k == m,
            s@.subrange(i as int, i + m) == lit@,
        decreases m - k,
    {
        if k >= m {
            proof {
                assert(lit@.subrange(0, m as int) =~= lit@);
            }
            break ;
        }
        let a = s.get_char(i + k);
        let b = lit.get_char(k);
        if a != b {
            proof {
                if s@.subrange(i as int, i + m) == lit@ {
                    assert(s@.subrange(i as int, i + m)[k as int] == s@[i + k]);
                }
            }
            return None;
        }
        proof {
            assert(s@.subrange(i as int, i + k + 1) =~= s@.subrange(i as int, i + k).push(
                s@[i + k],
            ));
            assert(lit@.subrange(0, k + 1) =~= lit@.subrange(0, k as int).push(lit@[k as int]));
        }
        k = k + 1;
    }
    Some(i + m)
}

/// Reads the run of digits at `i`: its end, and its value held below
/// `MAX_REPLAY_COUNT + 1` (larger runs saturate there).
fn parse_digits(s: &str, n: usize, i: usize) -> (r: Option<(u64, usize)>)
    requires
        n == s@.len(),
        i <= n,
    ensures
        match r {
            Some(p) => {
                &&& i < p.1 <= n
                &&& p.1 as int == digits_end(s@, i as int)
                &&& p.0 as int == vstd::math::min(
                    digits_value(s@.subrange(i as int, p.1 as int)),
                    (crate::replay::MAX_REPLAY_COUNT + 1) as int,
                )
            },
            None => digits_end(s@, i as int) == i as int,
        },
{
    let bound: u64 = crate::replay::MAX_REPLAY_COUNT + 1;
    let mut j = i;
    let mut acc: u64 = 0;
    proof {
        assert(s@.subrange(i as int, i as int) =~= Seq::<char>::empty());
    }
    loop
        invariant
            i <= j <= n,
            n == s@.len(),
            bound == crate::replay::MAX_REPLAY_COUNT + 1,
            digits_end(s@, i as int) == digits_end(s@, j as int),
            forall|t: int| i <= t < j ==> is_digit(#[trigger] s@[t]),
            acc as int == vstd::math::min(
                digits_value(s@.subrange(i as int, j as int)),
                bound as int,
            ),
        ensures
            i <= j <= n,
            j as int == digits_end(s@, i as int),
            acc as int == vstd::math::min(
                digits_value(s@.subrange(i as int, j as int)),
                bound as int,
            ),
        decreases n - j,
    {
        if j >= n {
            break ;
        }
        let c = s.get_char(j);
        let d = c as u32;
        if d < 48 || d > 57 {
            break ;
        }
        let next = acc * 10 + ((d - 48) as u64);
        acc = if next > bound {
            bound
        } else {
            next
        };
        proof {
            assert(s@.subrange(i as int, j + 1).drop_last() =~= s@.subrange(i as int, j as int));
            assert(s@.subrange(i as int, j + 1).last() == s@[j as int]);
        }
        j = j + 1;
    }
    if j == i {
        None
    } else {
        Some((acc, j))
    }
}

/// Reads the `"action": "request_items"` member at `i`.
fn parse_action_member(s: &str, n: usize, i: usize) -> (r: Option<usize>)
    requires
        n == s@.len(),
        i <= n,
    ensures
        match r {
            Some(j) => parse_action_spec(s@, i as int) == Some(j as int) && j <= n,
            None => parse_action_spec(s@, i as int) is None,
        },
{
    let key = "\"action\"";
    let km = key.unicode_len();
    match match_lit(s, n, i, key, km) {
        None => None,
        Some(j) => {
            let j1 = skip_ws(s, n, j);
            if j1 >= n {
                return None;
            }
            let c = s.get_char(j1);
            if c != ':' {
                return None;
            }
            let j2 = skip_ws(s, n, j1 + 1);
            let val = "\"request_items\"";
            let vm = val.unicode_len();
            match match_lit(s, n, j2, val, vm) {
                None => None,
                Some(m) => Some(m),
            }
        },
    }
}

/// Reads the `"count": <digits>` member at `i`: the clamp-ready value and
/// the position after the member.
fn parse_count_member(s: &str, n: usize, i: usize) -> (r: Option<(u64, usize)>)
    requires
        n == s@.len(),
        i <= n,
    ensures
        match r {
            Some(p) => {
                &&& parse_count_spec(s@, i as int) is Some
                &&& (parse_count_spec(s@, i as int)->0).1 == p.1 as int
                &&& p.1 <= n
                &&& p.0 as int == vstd::math::min(
                    (parse_count_spec(s@, i as int)->0).0,
                    (crate::replay::MAX_REPLAY_COUNT + 1) as int,
                )
            },
            None => parse_count_spec(s@, i as int) is None,
        },
{
    let key = "\"count\"";
    let km = key.unicode_len();
    match match_lit(s, n, i, key, km) {
        None => None,
        Some(j) => {
            let j1 = skip_ws(s, n, j);
            if j1 >= n {
                return None;
            }
            let c = s.get_char(j1);
            if c != ':' {
                return None;
            }
            let j2 = skip_ws(s, n, j1 + 1);
            parse_digits(s, n, j2)
        },
    }
}

/// Whether the closing brace stands at `i`, with nothing after it.
fn parse_close(s: &str, n: usize, i: usize) -> (r: bool)
    requires
        n == s@.len(),
        i <= n,
    ensures
        r == parse_close_spec(s@, i as int),
{
    let j = skip_ws(s, n, i);
    if j >= n {
        return false;
    }
    let c = s.get_char(j);
    if c != '}' {
        return false;
    }
    let j2 = skip_ws(s, n, j + 1);
    j2 == n
}

/// Reads one inbound control message. Yields the requested catch-up count
/// exactly when the text asks for recent items (`parse_control_spec`); the
/// count is clamped to `MAX_REPLAY_COUNT`. Any other text, malformed or
/// merely different, yields nothing.
pub fn parse_control_message(s: &str) -> (r: Option<u64>)
    ensures
        r is Some <==> parse_control_spec(s@) is Some,
        r is Some ==> r->0 as int == vstd::math::min(
            parse_control_spec(s@)->0,
            crate::replay::MAX_REPLAY_COUNT as int,
        ),
{
    let n = s.unicode_len();
    let i0 = skip_ws(s, n, 0);
    if i0 >= n {
        return None;
    }
    let c0 = s.get_char(i0);
    if c0 != '{' {
        return None;
    }
    let i1 = skip_ws(s, n, i0 + 1);
    match parse_action_member(s, n, i1) {
        Some(j) => {
            let k = skip_ws(s, n, j);
            if k >= n {
                return None;
            }
            let cc = s.get_char(k);
            if cc != ',' {
                return None;
            }
            let k1 = skip_ws(s, n, k + 1);
            match parse_count_member(s, n, k1) {
                Some(p) => {
                    if parse_close(s, n, p.1) {
                        Some(
                            if p.0 > crate::replay::MAX_REPLAY_COUNT {
                                crate::replay::MAX_REPLAY_COUNT
                            } else {
                                p.0
                            },
                        )
                    } else {
                        None
                    }
                },
                None => None,
            }
        },
        None => {
            match parse_count_member(s, n, i1) {
                Some(p) => {
                    let k = skip_ws(s, n, p.1);
                    if k >= n {
                        return None;
                    }
                    let cc = s.get_char(k);
                    if cc != ',' {
                        return None;
                    }
                    let k1 = skip_ws(s, n, k + 1);
                    match parse_action_member(s, n, k1) {
                        Some(m) => {
                            if parse_close(s, n, m) {
                                Some(
                                    if p.0 > crate::replay::MAX_REPLAY_COUNT {
                                        crate::replay::MAX_REPLAY_COUNT
                                    } else {
                                        p.0
                                    },
                                )
                            } else {
                                None
                            }
                        },
                        None => None,
                    }
                },
                None => None,
            }
        },
    }
}

} // verus!
