//! Gateway frames: the `{"op":N,"d":...}` envelope and the heartbeat nonce.
//!
//! Outbound frames always carry the opcode as a bare number. Inbound frames
//! may carry it as a number or as a quoted decimal string; both decode to the
//! same opcode. The payload `d` is carried through as text.
use vstd::prelude::*;
use crate::text::{
    all_digits, chars_of, dec, decimal_u64, is_digit, lemma_dec_digits,
    parse_digits, push_char, push_str, write_dec,
};

verus! {

pub const OP_IDENTIFY: u8 = 0;
pub const OP_SELECT_PROTOCOL: u8 = 1;
pub const OP_READY: u8 = 2;
pub const OP_HEARTBEAT: u8 = 3;
pub const OP_SESSION_DESCRIPTION: u8 = 4;
pub const OP_SPEAKING: u8 = 5;
pub const OP_HEARTBEAT_ACK: u8 = 6;
pub const OP_HELLO: u8 = 8;
pub const OP_STREAM_INFO: u8 = 12;
pub const OP_FLAGS: u8 = 15;
pub const OP_VERSIONS: u8 = 16;

/// `{"op":`
pub open spec fn frame_open() -> Seq<char> {
    seq!['{', '"', 'o', 'p', '"', ':']
}

/// `,"d":`
pub open spec fn frame_sep() -> Seq<char> {
    seq![',', '"', 'd', '"', ':']
}

/// The wire text of a frame with opcode `op` and payload text `d`.
pub open spec fn frame_text(op: nat, d: Seq<char>) -> Seq<char> {
    frame_open() + dec(op) + frame_sep() + d + seq!['}']
}

/// The same frame with the opcode written as a quoted string.
pub open spec fn frame_text_quoted(op: nat, d: Seq<char>) -> Seq<char> {
    frame_open() + seq!['"'] + dec(op) + seq!['"'] + frame_sep() + d + seq!['}']
}

/// Length of the run of digits that `s` starts with.
pub open spec fn digit_run(s: Seq<char>) -> nat
    decreases s.len(),
{
    if s.len() > 0 && is_digit(s[0]) {
        1 + digit_run(s.skip(1))
    } else {
        0
    }
}

/// What follows the opcode: the separator and then the payload text.
pub open spec fn payload_after(rest: Seq<char>) -> Option<Seq<char>> {
    if rest.len() >= 5 && rest.take(5) == frame_sep() {
        Some(rest.skip(5))
    } else {
        None
    }
}

/// Decodes the opcode digits `s[..n]` (`n == digit_run(s)`) and what follows.
pub open spec fn decode_op_and_payload(s: Seq<char>, quoted: bool) -> Option<(u8, Seq<char>)> {
    let n = digit_run(s) as int;
    let op = decimal_u64(s.take(n));
    let rest = if quoted {
        if s.len() > n && s[n] == '"' { Some(s.skip(n + 1)) } else { None }
    } else {
        Some(s.skip(n))
    };
    if op is Some && op->0 <= 255 && rest is Some && payload_after(rest->0) is Some {
        Some((op->0 as u8, payload_after(rest->0)->0))
    } else {
        None
    }
}

/// The opcode and payload of a frame that starts with its opcode.
pub open spec fn decode_op_first_spec(t: Seq<char>) -> Option<(u8, Seq<char>)> {
    if t.len() >= 7 && t.take(6) == frame_open() && t.last() == '}' {
        let body = t.subrange(6, t.len() - 1);
        if body.len() > 0 && body[0] == '"' {
            decode_op_and_payload(body.skip(1), true)
        } else {
            decode_op_and_payload(body, false)
        }
    } else {
        None
    }
}

/// Writes a frame: the opcode as a bare number, then the payload text.
pub fn encode_frame(op: u8, d: &str) -> (r: String)
    ensures
        r@ == frame_text(op as nat, d@),
{
    let mut r = String::new();
    push_str(&mut r, "{\"op\":");
    write_dec(&mut r, op as u64);
    push_str(&mut r, ",\"d\":");
    push_str(&mut r, d);
    push_char(&mut r, '}');
    proof {
        reveal_strlit("{\"op\":");
        reveal_strlit(",\"d\":");
        assert(r@ =~= frame_text(op as nat, d@));
    }
    r
}

/// Index of the first non-digit in `s[i..hi]`, or `hi`.
pub(crate) fn scan_digits(s: &Vec<char>, i: usize, hi: usize) -> (j: usize)
    requires
        i <= hi <= s.len(),
    ensures
        i <= j <= hi,
        j - i == digit_run(s@.subrange(i as int, hi as int)),
    decreases hi - i,
{
    let ghost t = s@.subrange(i as int, hi as int);
    if i < hi && '0' <= s[i] && s[i] <= '9' {
        let j = scan_digits(s, i + 1, hi);
        assert(t.skip(1) =~= s@.subrange(i + 1, hi as int));
        j
    } else {
        i
    }
}

/// Whether `s[i..i+p.len()]` equals the literal `p`.
fn matches_at(s: &Vec<char>, i: usize, p: &Vec<char>) -> (b: bool)
    requires
        i <= s.len(),
    ensures
        b == (s.len() - i >= p.len() && s@.subrange(i as int, i + p.len()) == p@),
{
    if s.len() - i < p.len() {
        return false;
    }
    let mut k: usize = 0;
    while k < p.len()
        invariant
            i + p.len() <= s.len(),
            k <= p.len(),
            forall|m: int| 0 <= m < k ==> s@[i + m] == p@[m],
        decreases p.len() - k,
    {
        if s[i + k] != p[k] {
            assert(s@.subrange(i as int, i + p.len())[k as int] != p@[k as int]);
            return false;
        }
        k = k + 1;
    }
    assert(s@.subrange(i as int, i + p.len()) =~= p@);
    true
}

/// Reads a frame that starts with its opcode.
fn decode_op_first(t: &Vec<char>) -> (r: Option<(u8, String)>)
    ensures
        r matches Some((op, d)) ==> decode_op_first_spec(t@) == Some((op, d@)),
        r is None ==> decode_op_first_spec(t@) is None,
{
    let open = chars_of("{\"op\":");
    let sep = chars_of(",\"d\":");
    proof {
        reveal_strlit("{\"op\":");
        reveal_strlit(",\"d\":");
        assert(open@ =~= frame_open());
        assert(sep@ =~= frame_sep());
    }
    let n = t.len();
    if n < 7 || !matches_at(&t, 0, &open) || t[n - 1] != '}' {
        proof {
            if n >= 6 {
                assert(t@.take(6) =~= t@.subrange(0, 6));
            }
        }
        return None;
    }
    assert(t@.take(6) =~= t@.subrange(0, 6));
    let hi = n - 1;
    let ghost body = t@.subrange(6, n - 1);
    let quoted = t[6] == '"';
    let start: usize = if quoted { 7 } else { 6 };
    let ghost s = t@.subrange(start as int, hi as int);
    assert(quoted ==> s =~= body.skip(1));
    assert(!quoted ==> s =~= body);
    let j = scan_digits(&t, start, hi);
    let op = parse_digits(&t, start, j);
    assert(t@.subrange(start as int, j as int) =~= s.take(j - start));
    let mut k: usize = j;
    if quoted {
        if j < hi && t[j] == '"' {
            k = j + 1;
        } else {
            return None;
        }
    }
    assert(t@.subrange(k as int, hi as int) =~= if quoted { s.skip(j - start + 1) } else { s.skip(j - start) });
    match op {
        None => None,
        Some(v) => {
            if v > 255 {
                return None;
            }
            let ghost rest = t@.subrange(k as int, hi as int);
            if hi - k < 5 || !matches_at(&t, k, &sep) {
                assert(hi - k >= 5 ==> rest.take(5) =~= t@.subrange(k as int, k + 5));
                return None;
            }
            assert(rest.take(5) =~= t@.subrange(k as int, k + 5));
            let mut d = String::new();
            let mut m: usize = k + 5;
            while m < hi
                invariant
                    k + 5 <= m <= hi,
                    hi < t.len(),
                    d@ == t@.subrange(k + 5, m as int),
                decreases hi - m,
            {
                push_char(&mut d, t[m]);
                m = m + 1;
                assert(d@ =~= t@.subrange(k + 5, m as int));
            }
            assert(rest.skip(5) =~= d@);
            Some((v as u8, d))
        },
    }
}

/// `,"op":`
pub open spec fn op_tag() -> Seq<char> {
    seq![',', '"', 'o', 'p', '"', ':']
}

/// Length of the run of digits that `s` ends with.
pub open spec fn digit_run_back(s: Seq<char>) -> nat
    decreases s.len(),
{
    if s.len() > 0 && is_digit(s.last()) {
        1 + digit_run_back(s.drop_last())
    } else {
        0
    }
}

/// The opcode and payload of a frame that ends with its opcode:
/// `{"d":<payload>,"op":N}`, the opcode a number or a quoted string.
pub open spec fn decode_op_last_spec(t: Seq<char>) -> Option<(u8, Seq<char>)> {
    if t.len() >= 6 && t.take(5) == nonce_field_open() && t.last() == '}' {
        let b = t.subrange(5, t.len() - 1);
        let quoted = b.len() > 0 && b.last() == '"';
        let b1 = if quoted { b.drop_last() } else { b };
        let n = digit_run_back(b1) as int;
        let head = b1.take(b1.len() - n);
        let tag = if quoted { op_tag().push('"') } else { op_tag() };
        let op = decimal_u64(b1.skip(b1.len() - n));
        if op is Some && op->0 <= 255 && head.len() >= tag.len() && head.skip(head.len() - tag.len()) == tag {
            Some((op->0 as u8, head.take(head.len() - tag.len())))
        } else {
            None
        }
    } else {
        None
    }
}

/// The opcode and payload text of a wire frame, if `t` is one: the opcode
/// first or last, as a number or a quoted string.
pub open spec fn decode_spec(t: Seq<char>) -> Option<(u8, Seq<char>)> {
    if decode_op_first_spec(t) is Some {
        decode_op_first_spec(t)
    } else {
        decode_op_last_spec(t)
    }
}

/// Index of the first digit of the run of digits that ends `s[lo..hi]`.
fn scan_digits_back(s: &Vec<char>, lo: usize, hi: usize) -> (j: usize)
    requires
        lo <= hi <= s.len(),
    ensures
        lo <= j <= hi,
        hi - j == digit_run_back(s@.subrange(lo as int, hi as int)),
    decreases hi - lo,
{
    let ghost t = s@.subrange(lo as int, hi as int);
    if lo < hi && '0' <= s[hi - 1] && s[hi - 1] <= '9' {
        let j = scan_digits_back(s, lo, hi - 1);
        assert(t.drop_last() =~= s@.subrange(lo as int, hi - 1));
        j
    } else {
        hi
    }
}

/// A string holding `t[lo..hi]`.
fn text_of(t: &Vec<char>, lo: usize, hi: usize) -> (r: String)
    requires
        lo <= hi <= t.len(),
    ensures
        r@ == t@.subrange(lo as int, hi as int),
{
    let mut d = String::new();
    let mut m: usize = lo;
    while m < hi
        invariant
            lo <= m <= hi <= t.len(),
            d@ == t@.subrange(lo as int, m as int),
        decreases hi - m,
    {
        push_char(&mut d, t[m]);
        m = m + 1;
        assert(d@ =~= t@.subrange(lo as int, m as int));
    }
    d
}

/// Reads a frame that ends with its opcode.
fn decode_op_last(t: &Vec<char>) -> (r: Option<(u8, String)>)
    ensures
        r matches Some((op, d)) ==> decode_op_last_spec(t@) == Some((op, d@)),
        r is None ==> decode_op_last_spec(t@) is None,
{
    let open = chars_of("{\"d\":");
    let tag = chars_of(",\"op\":");
    proof {
        reveal_strlit("{\"d\":");
        reveal_strlit(",\"op\":");
        assert(open@ =~= nonce_field_open());
        assert(tag@ =~= op_tag());
    }
    let n = t.len();
    if n < 6 || !matches_at(t, 0, &open) || t[n - 1] != '}' {
        proof {
            if n >= 5 {
                assert(t@.take(5) =~= t@.subrange(0, 5));
            }
        }
        return None;
    }
    assert(t@.take(5) =~= t@.subrange(0, 5));
    let ghost b = t@.subrange(5, n - 1);
    let quoted = n - 1 > 5 && t[n - 2] == '"';
    let hi: usize = if quoted { n - 2 } else { n - 1 };
    let ghost b1 = t@.subrange(5, hi as int);
    assert(b1 =~= if quoted { b.drop_last() } else { b });
    let j = scan_digits_back(t, 5, hi);
    assert(t@.subrange(j as int, hi as int) =~= b1.skip(b1.len() - (hi - j)));
    let op = parse_digits(t, j, hi);
    let ghost head = b1.take(b1.len() - (hi - j));
    assert(head =~= t@.subrange(5, j as int));
    let mut tq = tag.clone();
    if quoted {
        tq.push('"');
    }
    assert(tq@ == if quoted { op_tag().push('"') } else { op_tag() });
    match op {
        None => None,
        Some(v) => {
            if v > 255 || j - 5 < tq.len() || !matches_at(t, j - tq.len(), &tq) {
                proof {
                    if j - 5 >= tq.len() {
                        assert(head.skip(head.len() - tq.len()) =~= t@.subrange(j - tq.len(), j as int));
                    }
                }
                return None;
            }
            assert(head.skip(head.len() - tq.len()) =~= t@.subrange(j - tq.len(), j as int));
            let d = text_of(t, 5, j - tq.len());
            assert(head.take(head.len() - tq.len()) =~= d@);
            Some((v as u8, d))
        },
    }
}

/// Reads a frame off the wire: `{"op":N,"d":<payload>}` or
/// `{"d":<payload>,"op":N}`, the opcode a number or a quoted decimal string.
pub fn decode_frame(text: &str) -> (r: Option<(u8, String)>)
    ensures
        r matches Some((op, d)) ==> decode_spec(text@) == Some((op, d@)),
        r is None ==> decode_spec(text@) is None,
{
    let t = chars_of(text);
    match decode_op_first(&t) {
        Some(r) => Some(r),
        None => decode_op_last(&t),
    }
}

proof fn lemma_digit_run(o: Seq<char>, x: Seq<char>)
    requires
        all_digits(o),
        x.len() == 0 || !is_digit(x[0]),
    ensures
        digit_run(o + x) == o.len(),
    decreases o.len(),
{
    if o.len() > 0 {
        assert((o + x).skip(1) =~= o.skip(1) + x);
        lemma_digit_run(o.skip(1), x);
    } else {
        assert(o + x =~= x);
    }
}

proof fn lemma_decode_op(op: u8, d: Seq<char>, quoted: bool)
    ensures
        decode_op_and_payload(
            if quoted { dec(op as nat) + seq!['"'] + frame_sep() + d }
            else { dec(op as nat) + frame_sep() + d },
            quoted,
        ) == Some((op, d)),
{
    let o = dec(op as nat);
    lemma_dec_digits(op as nat);
    let x = if quoted { seq!['"'] + frame_sep() + d } else { frame_sep() + d };
    let s = if quoted { o + seq!['"'] + frame_sep() + d } else { o + frame_sep() + d };
    assert(s =~= o + x);
    lemma_digit_run(o, x);
    assert(s.take(o.len() as int) =~= o);
    if quoted {
        assert(s[o.len() as int] == '"');
        assert(s.skip(o.len() as int + 1) =~= frame_sep() + d);
    } else {
        assert(s.skip(o.len() as int) =~= frame_sep() + d);
    }
    assert((frame_sep() + d).take(5) =~= frame_sep());
    assert((frame_sep() + d).skip(5) =~= d);
}

/// Decoding a frame written by `encode_frame` gives back its opcode and
/// payload; so does decoding the same frame with its opcode quoted.
pub proof fn lemma_frame_round_trip(op: u8, d: Seq<char>)
    ensures
        decode_spec(frame_text(op as nat, d)) == Some((op, d)),
        decode_spec(frame_text_quoted(op as nat, d)) == Some((op, d)),
{
    lemma_dec_digits(op as nat);
    let o = dec(op as nat);
    let t = frame_text(op as nat, d);
    assert(t.take(6) =~= frame_open());
    assert(t.subrange(6, t.len() - 1) =~= o + frame_sep() + d);
    assert(!is_digit('"'));
    assert(o[0] != '"');
    lemma_decode_op(op, d, false);
    let tq = frame_text_quoted(op as nat, d);
    assert(tq.take(6) =~= frame_open());
    let bq = tq.subrange(6, tq.len() - 1);
    assert(bq =~= seq!['"'] + o + seq!['"'] + frame_sep() + d);
    assert(bq.skip(1) =~= o + seq!['"'] + frame_sep() + d);
    lemma_decode_op(op, d, true);
}


/// The nonce carried by a heartbeat acknowledgement's payload text: a JSON
/// number, or a string holding a decimal number; zero when it is neither.
pub open spec fn nonce_of(d: Seq<char>) -> u64 {
    if decimal_u64(d) is Some {
        decimal_u64(d)->0
    } else if d.len() >= 2 && d[0] == '"' && d.last() == '"' {
        let inner = d.subrange(1, d.len() - 1);
        let digits = if inner.len() > 0 && inner[0] == '+' { inner.skip(1) } else { inner };
        match decimal_u64(digits) {
            Some(v) => v,
            None => 0,
        }
    } else {
        0
    }
}

/// Reads the nonce in `t[lo..hi]` as `nonce_of` does.
fn nonce_in(t: &Vec<char>, lo: usize, hi: usize) -> (r: u64)
    requires
        lo <= hi <= t.len(),
    ensures
        r == nonce_of(t@.subrange(lo as int, hi as int)),
{
    let ghost d = t@.subrange(lo as int, hi as int);
    match parse_digits(t, lo, hi) {
        Some(v) => v,
        None => {
            if hi - lo >= 2 && t[lo] == '"' && t[hi - 1] == '"' {
                let start: usize = if hi - lo > 2 && t[lo + 1] == '+' { lo + 2 } else { lo + 1 };
                let ghost inner = d.subrange(1, d.len() - 1);
                assert(t@.subrange(start as int, hi - 1) =~= if inner.len() > 0 && inner[0] == '+' {
                    inner.skip(1)
                } else {
                    inner
                });
                match parse_digits(t, start, hi - 1) {
                    Some(v) => v,
                    None => 0,
                }
            } else {
                0
            }
        },
    }
}

/// Reads a nonce written as a JSON number or a decimal string; unreadable
/// text gives 0.
pub fn parse_nonce(d: &str) -> (r: u64)
    ensures
        r == nonce_of(d@),
{
    let t = chars_of(d);
    assert(t@.subrange(0, t.len() as int) =~= t@);
    nonce_in(&t, 0, t.len())
}

/// `{"d":`
pub open spec fn nonce_field_open() -> Seq<char> {
    seq!['{', '"', 'd', '"', ':']
}

/// The payload of a heartbeat carrying `n`: `{"d":n}`.
pub open spec fn heartbeat_payload_text(n: u64) -> Seq<char> {
    nonce_field_open() + dec(n as nat) + seq!['}']
}

pub open spec fn is_ws(c: char) -> bool {
    c == ' ' || c == '\t' || c == '\n' || c == '\r'
}

/// The first index from `i` on, below `hi`, that holds no JSON whitespace.
pub open spec fn skip_ws(s: Seq<char>, i: int, hi: int) -> int
    decreases hi - i,
{
    if 0 <= i < hi && i < s.len() && is_ws(s[i]) { skip_ws(s, i + 1, hi) } else { i }
}

/// The end of `s[lo..j]` once trailing JSON whitespace is dropped.
pub open spec fn back_ws(s: Seq<char>, j: int, lo: int) -> int
    decreases j - lo,
{
    if lo < j && 0 < j <= s.len() && is_ws(s[j - 1]) { back_ws(s, j - 1, lo) } else { j }
}

/// The nonce of an acknowledgement's payload, the object `{"d":v}` with
/// JSON whitespace allowed between its tokens: `v` read by `nonce_of`; 0 for
/// a payload of another shape.
pub open spec fn ack_nonce_of(p: Seq<char>) -> u64 {
    let a = skip_ws(p, 0, p.len() as int);
    let b = back_ws(p, p.len() as int, a);
    if b - a >= 2 && p[a] == '{' && p[b - 1] == '}' {
        let k = skip_ws(p, a + 1, b - 1);
        if k + 3 <= b - 1 && p.subrange(k, k + 3) == seq!['"', 'd', '"'] {
            let c = skip_ws(p, k + 3, b - 1);
            if c < b - 1 && p[c] == ':' {
                let v0 = skip_ws(p, c + 1, b - 1);
                nonce_of(p.subrange(v0, back_ws(p, b - 1, v0)))
            } else {
                0
            }
        } else {
            0
        }
    } else {
        0
    }
}

fn skip_ws_exec(t: &Vec<char>, i: usize, hi: usize) -> (j: usize)
    requires
        i <= hi <= t.len(),
    ensures
        j as int == skip_ws(t@, i as int, hi as int),
        i <= j <= hi,
    decreases hi - i,
{
    if i < hi && (t[i] == ' ' || t[i] == '\t' || t[i] == '\n' || t[i] == '\r') {
        skip_ws_exec(t, i + 1, hi)
    } else {
        i
    }
}

fn back_ws_exec(t: &Vec<char>, j: usize, lo: usize) -> (k: usize)
    requires
        lo <= j <= t.len(),
    ensures
        k as int == back_ws(t@, j as int, lo as int),
        lo <= k <= j,
    decreases j - lo,
{
    if lo < j && (t[j - 1] == ' ' || t[j - 1] == '\t' || t[j - 1] == '\n' || t[j - 1] == '\r') {
        back_ws_exec(t, j - 1, lo)
    } else {
        j
    }
}

/// Writes the payload of a heartbeat carrying `n`.
pub fn heartbeat_payload(n: u64) -> (r: String)
    ensures
        r@ == heartbeat_payload_text(n),
{
    let mut r = String::new();
    push_str(&mut r, "{\"d\":");
    write_dec(&mut r, n);
    push_char(&mut r, '}');
    proof {
        reveal_strlit("{\"d\":");
        assert(r@ =~= heartbeat_payload_text(n));
    }
    r
}

/// Reads the nonce of an acknowledgement's payload `{"d":v}`, where `v` is a
/// JSON number or a decimal string; anything else gives 0.
pub fn read_ack(p: &str) -> (r: u64)
    ensures
        r == ack_nonce_of(p@),
{
    let t = chars_of(p);
    let n = t.len();
    let a = skip_ws_exec(&t, 0, n);
    let b = back_ws_exec(&t, n, a);
    if b - a < 2 || t[a] != '{' || t[b - 1] != '}' {
        return 0;
    }
    let k = skip_ws_exec(&t, a + 1, b - 1);
    if b - 1 - k < 3 || t[k] != '"' || t[k + 1] != 'd' || t[k + 2] != '"' {
        proof {
            if b - 1 - k >= 3 {
                let w = t@.subrange(k as int, k + 3);
                assert(w[0] == t@[k as int] && w[1] == t@[k + 1] && w[2] == t@[k + 2]);
                assert(seq!['"', 'd', '"'][1] == 'd');
            }
        }
        return 0;
    }
    assert(t@.subrange(k as int, k + 3) =~= seq!['"', 'd', '"']);
    let c = skip_ws_exec(&t, k + 3, b - 1);
    if c >= b - 1 || t[c] != ':' {
        return 0;
    }
    let v0 = skip_ws_exec(&t, c + 1, b - 1);
    let v1 = back_ws_exec(&t, b - 1, v0);
    nonce_in(&t, v0, v1)
}

/// Writes a nonce as a JSON number.
pub fn format_nonce(n: u64) -> (r: String)
    ensures
        r@ == dec(n as nat),
{
    let mut r = String::new();
    write_dec(&mut r, n);
    assert(r@ =~= dec(n as nat));
    r
}

/// A nonce written by `format_nonce` reads back unchanged, as a number and
/// as a quoted string.
pub proof fn lemma_nonce_round_trip(n: u64)
    ensures
        nonce_of(dec(n as nat)) == n,
        nonce_of(seq!['"'] + dec(n as nat) + seq!['"']) == n,
{
    lemma_dec_digits(n as nat);
    let q = seq!['"'] + dec(n as nat) + seq!['"'];
    assert(!all_digits(q)) by {
        assert(!is_digit(q[0]));
    }
    assert(q.subrange(1, q.len() - 1) =~= dec(n as nat));
    assert(dec(n as nat)[0] != '+');
}

proof fn lemma_ack_compact(v: Seq<char>)
    requires
        v.len() >= 1,
        !is_ws(v[0]),
        !is_ws(v.last()),
    ensures
        ack_nonce_of(nonce_field_open() + v + seq!['}']) == nonce_of(v),
{
    let p = nonce_field_open() + v + seq!['}'];
    let n = p.len() as int;
    assert(skip_ws(p, 0, n) == 0);
    assert(back_ws(p, n, 0) == n);
    assert(skip_ws(p, 1, n - 1) == 1);
    assert(p.subrange(1, 4) =~= seq!['"', 'd', '"']);
    assert(skip_ws(p, 4, n - 1) == 4);
    assert(p[5] == v[0]);
    assert(skip_ws(p, 5, n - 1) == 5);
    assert(p[n - 2] == v.last());
    assert(back_ws(p, n - 1, 5) == n - 1);
    assert(p.subrange(5, n - 1) =~= v);
}

proof fn lemma_ack_round_trip(n: u64)
    ensures
        ack_nonce_of(heartbeat_payload_text(n)) == n,
        ack_nonce_of(nonce_field_open() + seq!['"'] + dec(n as nat) + seq!['"', '}']) == n,
{
    let o = dec(n as nat);
    lemma_nonce_round_trip(n);
    lemma_dec_digits(n as nat);
    assert(is_digit(o[0]) && is_digit(o.last()));
    lemma_ack_compact(o);
    let v = seq!['"'] + o + seq!['"'];
    assert(nonce_field_open() + seq!['"'] + o + seq!['"', '}'] =~= nonce_field_open() + v + seq!['}']);
    lemma_ack_compact(v);
}

/// A heartbeat frame written with `encode_frame` and `heartbeat_payload`
/// decodes to opcode 3 and its payload, whose nonce reads back unchanged; an
/// acknowledgement echoing the nonce as a decimal string reads back too.
pub proof fn lemma_heartbeat_frame_round_trip(n: u64)
    ensures
        decode_spec(frame_text(OP_HEARTBEAT as nat, heartbeat_payload_text(n)))
            == Some((OP_HEARTBEAT, heartbeat_payload_text(n))),
        decode_spec(frame_text_quoted(OP_HEARTBEAT as nat, heartbeat_payload_text(n)))
            == Some((OP_HEARTBEAT, heartbeat_payload_text(n))),
        ack_nonce_of(heartbeat_payload_text(n)) == n,
        ack_nonce_of(nonce_field_open() + seq!['"'] + dec(n as nat) + seq!['"', '}']) == n,
{
    lemma_frame_round_trip(OP_HEARTBEAT, heartbeat_payload_text(n));
    lemma_ack_round_trip(n);
}

} // verus!
