//! The answer SDP composer.
//!
//! The media engine's local offer is a complete SDP; the gateway's session
//! description holds only a stub media line and a few ICE/DTLS fragments. The
//! composer reads what it needs from both and writes a complete answer.
use vstd::prelude::*;
use crate::text::{chars_of, dec, decimal_u64, parse_digits, push_char, push_str, write_dec};
use crate::codec::{digit_run, scan_digits};
use crate::error::SessionError;
use crate::media::{codec_name_spec, StreamSSRCs, VideoEncoderType};

verus! {

/// The lines of `s`, split at each `\n`; the last line holds what follows the
/// last `\n` (possibly nothing).
pub open spec fn lines_of(s: Seq<char>) -> Seq<Seq<char>>
    decreases s.len(),
{
    if s.len() == 0 {
        seq![Seq::<char>::empty()]
    } else if s.last() == '\n' {
        lines_of(s.drop_last()).push(Seq::<char>::empty())
    } else {
        let p = lines_of(s.drop_last());
        p.update(p.len() - 1, p.last().push(s.last()))
    }
}

/// A line without the carriage return that may end it.
pub open spec fn trim_cr(l: Seq<char>) -> Seq<char> {
    if l.len() > 0 && l.last() == '\r' { l.drop_last() } else { l }
}

/// The lines of `s` with their carriage returns removed.
pub open spec fn clean_lines(s: Seq<char>) -> Seq<Seq<char>> {
    lines_of(s).map_values(|l: Seq<char>| trim_cr(l))
}

pub open spec fn starts_with(l: Seq<char>, p: Seq<char>) -> bool {
    l.len() >= p.len() && l.take(p.len() as int) == p
}

pub open spec fn ends_with(l: Seq<char>, x: Seq<char>) -> bool {
    l.len() >= x.len() && l.skip(l.len() - x.len()) == x
}

pub open spec fn line_matches(l: Seq<char>, pre: Seq<char>, suf: Seq<char>) -> bool {
    starts_with(l, pre) && ends_with(l, suf)
}

/// Index of the first line in `ls[lo..hi]` that starts with `pre` and ends with `suf`.
pub open spec fn first_line(ls: Seq<Seq<char>>, lo: int, hi: int, pre: Seq<char>, suf: Seq<char>) -> Option<int>
    decreases hi - lo,
{
    if lo >= hi {
        None
    } else if line_matches(ls[lo], pre, suf) {
        Some(lo)
    } else {
        first_line(ls, lo + 1, hi, pre, suf)
    }
}

pub open spec fn lines_view(v: Seq<Vec<char>>) -> Seq<Seq<char>> {
    v.map_values(|l: Vec<char>| l@)
}

proof fn lemma_lines_nonempty(s: Seq<char>)
    ensures
        lines_of(s).len() >= 1,
    decreases s.len(),
{
    if s.len() > 0 {
        lemma_lines_nonempty(s.drop_last());
    }
}

/// Splits `s` into lines, removing the carriage return that ends a line.
pub fn split_lines(s: &Vec<char>) -> (r: Vec<Vec<char>>)
    ensures
        lines_view(r@) == clean_lines(s@),
{
    let mut done: Vec<Vec<char>> = Vec::new();
    let mut cur: Vec<char> = Vec::new();
    let mut i: usize = 0;
    assert(s@.take(0) =~= Seq::<char>::empty());
    while i < s.len()
        invariant
            i <= s.len(),
            lines_view(done@).push(cur@) == lines_of(s@.take(i as int)),
        decreases s.len() - i,
    {
        let c = s[i];
        let ghost pre = s@.take(i as int);
        assert(s@.take(i + 1).drop_last() =~= pre);
        proof {
            lemma_lines_nonempty(pre);
        }
        if c == '\n' {
            done.push(cur);
            cur = Vec::new();
            assert(lines_view(done@) =~= lines_of(pre));
        } else {
            let ghost old_cur = cur@;
            cur.push(c);
            assert(lines_view(done@).push(cur@) =~= lines_of(pre).update(
                lines_of(pre).len() - 1,
                old_cur.push(c),
            ));
        }
        i = i + 1;
    }
    assert(s@.take(s.len() as int) =~= s@);
    done.push(cur);
    let ghost raw = lines_view(done@);
    let mut r: Vec<Vec<char>> = Vec::new();
    let mut k: usize = 0;
    while k < done.len()
        invariant
            k <= done.len(),
            raw == lines_view(done@),
            lines_view(r@) == raw.take(k as int).map_values(|l: Seq<char>| trim_cr(l)),
        decreases done.len() - k,
    {
        let l = &done[k];
        let n = l.len();
        let mut t: Vec<char> = Vec::new();
        let m: usize = if n > 0 && l[n - 1] == '\r' { n - 1 } else { n };
        let mut j: usize = 0;
        while j < m
            invariant
                j <= m <= l.len(),
                t@ == l@.take(j as int),
            decreases m - j,
        {
            t.push(l[j]);
            j = j + 1;
            assert(t@ =~= l@.take(j as int));
        }
        assert(t@ =~= trim_cr(l@));
        assert(raw[k as int] == l@);
        let ghost old_r = r@;
        r.push(t);
        assert(lines_view(r@) == lines_view(old_r).push(trim_cr(raw[k as int])));
        k = k + 1;
        assert(lines_view(r@) =~= raw.take(k as int).map_values(|l: Seq<char>| trim_cr(l)));
    }
    assert(raw.take(done.len() as int) =~= raw);
    r
}

/// Whether `l` starts with `p`.
pub fn has_prefix(l: &Vec<char>, p: &Vec<char>) -> (b: bool)
    ensures
        b == starts_with(l@, p@),
{
    if l.len() < p.len() {
        return false;
    }
    let mut k: usize = 0;
    while k < p.len()
        invariant
            p.len() <= l.len(),
            k <= p.len(),
            forall|m: int| 0 <= m < k ==> l@[m] == p@[m],
        decreases p.len() - k,
    {
        if l[k] != p[k] {
            assert(l@.take(p.len() as int)[k as int] != p@[k as int]);
            return false;
        }
        k = k + 1;
    }
    assert(l@.take(p.len() as int) =~= p@);
    true
}

/// Whether `l` ends with `x`.
pub fn has_suffix(l: &Vec<char>, x: &Vec<char>) -> (b: bool)
    ensures
        b == ends_with(l@, x@),
{
    if l.len() < x.len() {
        return false;
    }
    let off = l.len() - x.len();
    let mut k: usize = 0;
    while k < x.len()
        invariant
            off + x.len() == l.len(),
            k <= x.len(),
            forall|m: int| 0 <= m < k ==> l@[off + m] == x@[m],
        decreases x.len() - k,
    {
        if l[off + k] != x[k] {
            assert(l@.skip(off as int)[k as int] != x@[k as int]);
            return false;
        }
        k = k + 1;
    }
    assert(l@.skip(off as int) =~= x@);
    true
}

/// Finds the first line of `ls[lo..hi]` that starts with `pre` and ends with `suf`.
pub fn find_line(ls: &Vec<Vec<char>>, lo: usize, hi: usize, pre: &Vec<char>, suf: &Vec<char>) -> (r: Option<usize>)
    requires
        lo <= hi <= ls.len(),
    ensures
        r matches Some(i) ==> first_line(lines_view(ls@), lo as int, hi as int, pre@, suf@) == Some(i as int)
            && lo <= i < hi && line_matches(ls@[i as int]@, pre@, suf@),
        r is None ==> first_line(lines_view(ls@), lo as int, hi as int, pre@, suf@) is None,
{
    let ghost v = lines_view(ls@);
    let mut i: usize = lo;
    while i < hi
        invariant
            lo <= i <= hi <= ls.len(),
            v == lines_view(ls@),
            first_line(v, lo as int, hi as int, pre@, suf@) == first_line(v, i as int, hi as int, pre@, suf@),
        decreases hi - i,
    {
        assert(v[i as int] == ls@[i as int]@);
        if has_prefix(&ls[i], pre) && has_suffix(&ls[i], suf) {
            return Some(i);
        }
        i = i + 1;
    }
    None
}

/// What the composer reads from the local offer.
#[derive(Clone, Copy, Debug, PartialEq, Eq)]
pub struct LocalOfferInfo {
    pub video_payload_type: u8,
    pub rtx_payload_type: u8,
    pub ssrcs: StreamSSRCs,
}

/// What the composer harvests from the gateway's session description.
#[derive(Clone, Debug, PartialEq, Eq)]
pub struct RemoteFragments {
    /// The connection address.
    pub address: String,
    /// The port of the media line, used for both media sections.
    pub port: u16,
    /// The whole `a=candidate:` line.
    pub candidate: String,
    /// The whole `a=fingerprint:` line.
    pub fingerprint: String,
    /// The whole `a=ice-ufrag:` line.
    pub ice_ufrag: String,
    /// The whole `a=ice-pwd:` line.
    pub ice_pwd: String,
}

/// End of the media block whose `m=` line is at `start`: the next `m=` line, or the end.
pub open spec fn block_end(ls: Seq<Seq<char>>, start: int) -> int {
    match first_line(ls, start + 1, ls.len() as int, "m="@, Seq::empty()) {
        Some(e) => e,
        None => ls.len() as int,
    }
}

/// The number at the start of `l.skip(off)`, if it is at most `max`.
pub open spec fn number_at(l: Seq<char>, off: int, max: u64) -> Option<u64> {
    let rest = l.skip(off);
    match decimal_u64(rest.take(digit_run(rest) as int)) {
        Some(v) => if v <= max { Some(v) } else { None },
        None => None,
    }
}

/// Payload type of the first `a=rtpmap:` line in `ls[lo..hi]` that ends with `suf`.
pub open spec fn rtpmap_pt_in(ls: Seq<Seq<char>>, lo: int, hi: int, suf: Seq<char>) -> Option<u8> {
    match first_line(ls, lo, hi, "a=rtpmap:"@, suf) {
        Some(i) => match number_at(ls[i], "a=rtpmap:"@.len() as int, 255) {
            Some(v) => Some(v as u8),
            None => None,
        },
        None => None,
    }
}

/// The source of the first `a=ssrc:` line in `ls[lo..hi]`.
pub open spec fn ssrc_in(ls: Seq<Seq<char>>, lo: int, hi: int) -> Option<u32> {
    match first_line(ls, lo, hi, "a=ssrc:"@, Seq::empty()) {
        Some(i) => match number_at(ls[i], "a=ssrc:"@.len() as int, 0xffff_ffff) {
            Some(v) => Some(v as u32),
            None => None,
        },
        None => None,
    }
}

pub open spec fn clock_suffix(codec: Seq<char>) -> Seq<char> {
    codec + "/90000"@
}

/// The lines of the video block: after the `m=video` line up to the next
/// media line; none without a video section.
pub open spec fn video_block(ls: Seq<Seq<char>>) -> (int, int) {
    match first_line(ls, 0, ls.len() as int, "m=video"@, Seq::empty()) {
        Some(vs) => (vs + 1, block_end(ls, vs)),
        None => (0, 0),
    }
}

/// What the local offer yields, or the name of the first missing piece:
/// the retransmission payload type of the video block first, then the audio
/// section, the codec's payload type and the sources.
pub open spec fn local_offer_spec(offer: Seq<char>, encoder: VideoEncoderType) -> Result<LocalOfferInfo, Seq<char>> {
    let ls = clean_lines(offer);
    let n = ls.len() as int;
    let (vlo, vhi) = video_block(ls);
    let rtx = rtpmap_pt_in(ls, vlo, vhi, clock_suffix("rtx"@));
    if rtx is None {
        Err("rtx"@)
    } else {
        match first_line(ls, 0, n, "m=audio"@, Seq::empty()) {
            None => Err("audio"@),
            Some(aus) => {
                let ae = block_end(ls, aus);
                let pt = rtpmap_pt_in(ls, vlo, vhi, clock_suffix(codec_name_spec(encoder)));
                let vssrc = ssrc_in(ls, vlo, vhi);
                let assrc = ssrc_in(ls, aus + 1, ae);
                if pt is None {
                    Err(codec_name_spec(encoder))
                } else if vssrc is None || assrc is None {
                    Err("ssrc"@)
                } else {
                    Ok(LocalOfferInfo {
                        video_payload_type: pt->0,
                        rtx_payload_type: rtx->0,
                        ssrcs: StreamSSRCs { audio: assrc->0, video: vssrc->0, rtx: 0 },
                    })
                }
            },
        }
    }
}

/// A string holding `s`.
pub fn owned(s: &str) -> (r: String)
    ensures
        r@ == s@,
{
    let mut r = String::new();
    push_str(&mut r, s);
    r
}

/// The characters of a string literal.
fn lit(s: &str) -> (r: Vec<char>)
    ensures
        r@ == s@,
{
    chars_of(s)
}

/// Reads the number that starts at `off` in line `l`, if it is at most `max`.
fn read_number(l: &Vec<char>, off: usize, max: u64) -> (r: Option<u64>)
    requires
        off <= l.len(),
    ensures
        r == number_at(l@, off as int, max),
{
    let j = scan_digits(l, off, l.len());
    assert(l@.subrange(off as int, l.len() as int) =~= l@.skip(off as int));
    assert(l@.subrange(off as int, j as int) =~= l@.skip(off as int).take(j - off));
    match parse_digits(l, off, j) {
        Some(v) => if v <= max { Some(v) } else { None },
        None => None,
    }
}

fn find_rtpmap_pt(ls: &Vec<Vec<char>>, lo: usize, hi: usize, suf: &Vec<char>) -> (r: Option<u8>)
    requires
        lo <= hi <= ls.len(),
    ensures
        r == rtpmap_pt_in(lines_view(ls@), lo as int, hi as int, suf@),
{
    let pre = lit("a=rtpmap:");
    match find_line(ls, lo, hi, &pre, suf) {
        Some(i) => {
            assert(lines_view(ls@)[i as int] == ls@[i as int]@);
            let l = &ls[i];
            match read_number(l, pre.len(), 255) {
                Some(v) => Some(v as u8),
                None => None,
            }
        },
        None => None,
    }
}

fn find_ssrc(ls: &Vec<Vec<char>>, lo: usize, hi: usize) -> (r: Option<u32>)
    requires
        lo <= hi <= ls.len(),
    ensures
        r == ssrc_in(lines_view(ls@), lo as int, hi as int),
{
    let pre = lit("a=ssrc:");
    match find_line(ls, lo, hi, &pre, &Vec::new()) {
        Some(i) => {
            assert(lines_view(ls@)[i as int] == ls@[i as int]@);
            match read_number(&ls[i], pre.len(), 0xffff_ffff) {
                Some(v) => Some(v as u32),
                None => None,
            }
        },
        None => None,
    }
}

fn find_block_end(ls: &Vec<Vec<char>>, start: usize) -> (e: usize)
    requires
        start < ls.len(),
    ensures
        e as int == block_end(lines_view(ls@), start as int),
        start < e <= ls.len(),
{
    let m = lit("m=");
    match find_line(ls, start + 1, ls.len(), &m, &Vec::new()) {
        Some(e) => e,
        None => ls.len(),
    }
}

/// Reads the payload types of the configured codec and of its retransmission
/// stream, and the first video and audio sources, from the local offer.
pub fn read_local_offer(offer: &str, encoder: VideoEncoderType) -> (r: Result<LocalOfferInfo, SessionError>)
    ensures
        r matches Ok(info) ==> local_offer_spec(offer@, encoder) == Ok::<LocalOfferInfo, Seq<char>>(info),
        r matches Err(e) ==> e matches SessionError::SdpComposition(f)
            && local_offer_spec(offer@, encoder) == Err::<LocalOfferInfo, Seq<char>>(f@),
{
    let ls = split_lines(&chars_of(offer));
    let ghost v = lines_view(ls@);
    let n = ls.len();
    assert(v.len() == n);
    let (vlo, vhi): (usize, usize) = match find_line(&ls, 0, n, &lit("m=video"), &Vec::new()) {
        Some(vs) => (vs + 1, find_block_end(&ls, vs)),
        None => (0, 0),
    };
    let mut rtx_suffix = owned("rtx");
    push_str(&mut rtx_suffix, "/90000");
    let x = match find_rtpmap_pt(&ls, vlo, vhi, &chars_of(rtx_suffix.as_str())) {
        Some(x) => x,
        None => return Err(SessionError::SdpComposition(owned("rtx"))),
    };
    let aus = match find_line(&ls, 0, n, &lit("m=audio"), &Vec::new()) {
        Some(i) => i,
        None => return Err(SessionError::SdpComposition(owned("audio"))),
    };
    let ae = find_block_end(&ls, aus);
    let mut codec_suffix = encoder.codec_name();
    push_str(&mut codec_suffix, "/90000");
    let pt = find_rtpmap_pt(&ls, vlo, vhi, &chars_of(codec_suffix.as_str()));
    let vssrc = find_ssrc(&ls, vlo, vhi);
    let assrc = find_ssrc(&ls, aus + 1, ae);
    match (pt, vssrc, assrc) {
        (None, _, _) => Err(SessionError::SdpComposition(encoder.codec_name())),
        (Some(p), Some(vid), Some(aud)) => Ok(LocalOfferInfo {
            video_payload_type: p,
            rtx_payload_type: x,
            ssrcs: StreamSSRCs { audio: aud, video: vid, rtx: 0 },
        }),
        _ => Err(SessionError::SdpComposition(owned("ssrc"))),
    }
}

/// Length of the run of non-space characters that `s` starts with.
pub open spec fn word_run(s: Seq<char>) -> nat
    decreases s.len(),
{
    if s.len() > 0 && s[0] != ' ' {
        1 + word_run(s.skip(1))
    } else {
        0
    }
}

/// The port of a media line `m=<media> <port> ...`.
pub open spec fn port_of(l: Seq<char>) -> Option<u16> {
    let k = 2 + word_run(l.skip(2)) as int;
    if l.len() >= 2 && k < l.len() {
        match number_at(l, k + 1, 0xffff) {
            Some(v) => Some(v as u16),
            None => None,
        }
    } else {
        None
    }
}

/// The value of the first line of `ls` that starts with `pre`, from its start.
pub open spec fn line_with(ls: Seq<Seq<char>>, pre: Seq<char>) -> Option<Seq<char>> {
    match first_line(ls, 0, ls.len() as int, pre, Seq::empty()) {
        Some(i) => Some(ls[i]),
        None => None,
    }
}

/// The fragments a session description yields, in the order address, port,
/// candidate, fingerprint, ufrag, pwd; or the name of the first missing one,
/// looked for in the order connection, candidate, fingerprint, ice-ufrag,
/// ice-pwd, port.
pub open spec fn remote_spec(sdp: Seq<char>) -> Result<(Seq<char>, u16, Seq<char>, Seq<char>, Seq<char>, Seq<char>), Seq<char>> {
    let ls = clean_lines(sdp);
    let cand = line_with(ls, "a=candidate:"@);
    let fp = line_with(ls, "a=fingerprint:"@);
    let uf = line_with(ls, "a=ice-ufrag:"@);
    let pw = line_with(ls, "a=ice-pwd:"@);
    let conn = line_with(ls, "c=IN IP4 "@);
    let port = match line_with(ls, "m="@) {
        Some(l) => port_of(l),
        None => None,
    };
    if conn is None {
        Err("connection"@)
    } else if cand is None {
        Err("candidate"@)
    } else if fp is None {
        Err("fingerprint"@)
    } else if uf is None {
        Err("ice-ufrag"@)
    } else if pw is None {
        Err("ice-pwd"@)
    } else if port is None {
        Err("port"@)
    } else {
        Ok((conn->0.skip("c=IN IP4 "@.len() as int), port->0, cand->0, fp->0, uf->0, pw->0))
    }
}

fn scan_word(l: &Vec<char>, i: usize) -> (j: usize)
    requires
        i <= l.len(),
    ensures
        i <= j <= l.len(),
        j - i == word_run(l@.skip(i as int)),
    decreases l.len() - i,
{
    if i < l.len() && l[i] != ' ' {
        let j = scan_word(l, i + 1);
        assert(l@.skip(i as int).skip(1) =~= l@.skip(i + 1));
        j
    } else {
        i
    }
}

fn read_port(l: &Vec<char>) -> (r: Option<u16>)
    ensures
        r == port_of(l@),
{
    if l.len() < 2 {
        return None;
    }
    let k = scan_word(l, 2);
    if k >= l.len() {
        return None;
    }
    match read_number(l, k + 1, 0xffff) {
        Some(v) => Some(v as u16),
        None => None,
    }
}

fn find_with(ls: &Vec<Vec<char>>, pre: &str) -> (r: Option<usize>)
    ensures
        r matches Some(i) ==> i < ls.len() && line_with(lines_view(ls@), pre@) == Some(ls@[i as int]@)
            && starts_with(ls@[i as int]@, pre@),
        r is None ==> line_with(lines_view(ls@), pre@) is None,
{
    match find_line(ls, 0, ls.len(), &lit(pre), &Vec::new()) {
        Some(i) => {
            assert(lines_view(ls@)[i as int] == ls@[i as int]@);
            Some(i)
        },
        None => None,
    }
}

/// A string holding the characters of `l`.
fn string_of(l: &Vec<char>, from: usize) -> (r: String)
    requires
        from <= l.len(),
    ensures
        r@ == l@.skip(from as int),
{
    let mut r = String::new();
    let mut i: usize = from;
    while i < l.len()
        invariant
            from <= i <= l.len(),
            r@ == l@.subrange(from as int, i as int),
        decreases l.len() - i,
    {
        push_char(&mut r, l[i]);
        i = i + 1;
        assert(r@ =~= l@.subrange(from as int, i as int));
    }
    assert(l@.subrange(from as int, l.len() as int) =~= l@.skip(from as int));
    r
}

/// Harvests one candidate, fingerprint, ufrag and pwd line, the connection
/// address and the media port from the gateway's session description.
pub fn harvest_remote(sdp: &str) -> (r: Result<RemoteFragments, SessionError>)
    ensures
        r matches Ok(f) ==> remote_spec(sdp@) == Ok::<_, Seq<char>>((
            f.address@, f.port, f.candidate@, f.fingerprint@, f.ice_ufrag@, f.ice_pwd@)),
        r matches Err(e) ==> e matches SessionError::SdpComposition(name)
            && remote_spec(sdp@) == Err::<(Seq<char>, u16, Seq<char>, Seq<char>, Seq<char>, Seq<char>), Seq<char>>(name@),
{
    let ls = split_lines(&chars_of(sdp));
    let cand = find_with(&ls, "a=candidate:");
    let fp = find_with(&ls, "a=fingerprint:");
    let uf = find_with(&ls, "a=ice-ufrag:");
    let pw = find_with(&ls, "a=ice-pwd:");
    let conn = find_with(&ls, "c=IN IP4 ");
    let mline = find_with(&ls, "m=");
    let port = match mline {
        Some(i) => read_port(&ls[i]),
        None => None,
    };
    assert(port == match line_with(lines_view(ls@), "m="@) {
        Some(l) => port_of(l),
        None => None,
    });
    let (c, f, u, p, a, port) = match (cand, fp, uf, pw, conn, port) {
        (_, _, _, _, None, _) => return Err(SessionError::SdpComposition(owned("connection"))),
        (None, _, _, _, _, _) => return Err(SessionError::SdpComposition(owned("candidate"))),
        (_, None, _, _, _, _) => return Err(SessionError::SdpComposition(owned("fingerprint"))),
        (_, _, None, _, _, _) => return Err(SessionError::SdpComposition(owned("ice-ufrag"))),
        (_, _, _, None, _, _) => return Err(SessionError::SdpComposition(owned("ice-pwd"))),
        (_, _, _, _, _, None) => return Err(SessionError::SdpComposition(owned("port"))),
        (Some(c), Some(f), Some(u), Some(p), Some(a), Some(port)) => (c, f, u, p, a, port),
    };
    let conn_pre = lit("c=IN IP4 ");
    let r = RemoteFragments {
        address: string_of(&ls[a], conn_pre.len()),
        port,
        candidate: string_of(&ls[c], 0),
        fingerprint: string_of(&ls[f], 0),
        ice_ufrag: string_of(&ls[u], 0),
        ice_pwd: string_of(&ls[p], 0),
    };
    assert(ls@[c as int]@.skip(0) =~= ls@[c as int]@);
    assert(ls@[f as int]@.skip(0) =~= ls@[f as int]@);
    assert(ls@[u as int]@.skip(0) =~= ls@[u as int]@);
    assert(ls@[p as int]@.skip(0) =~= ls@[p as int]@);
    Ok(r)
}

/// The text of `ls`, each line followed by `\n`.
pub open spec fn join_lines(ls: Seq<Seq<char>>) -> Seq<char>
    decreases ls.len(),
{
    if ls.len() == 0 {
        Seq::empty()
    } else {
        join_lines(ls.drop_last()) + ls.last() + seq!['\n']
    }
}

pub open spec fn session_lines() -> Seq<Seq<char>> {
    seq![
        "v=0"@,
        "o=- 1420070400000 0 IN IP4 127.0.0.1"@,
        "s=-"@,
        "t=0 0"@,
        "a=msid-semantic: WMS *"@,
        "a=group:BUNDLE 0 1"@,
    ]
}

/// The lines both media sections carry; `mid` tells the sections apart.
pub open spec fn shared_lines(f: RemoteView, mid: Seq<char>) -> Seq<Seq<char>> {
    seq![
        "c=IN IP4 "@ + f.address + " 127 1"@,
        "a=rtcp:"@ + dec(f.port as nat),
        f.ice_ufrag,
        f.ice_pwd,
        f.fingerprint,
        "a=setup:passive"@,
        "a=mid:"@ + mid,
        "a=rtcp-mux"@,
        "a=inactive"@,
    ]
}

pub open spec fn video_lines(l: LocalOfferInfo, codec: Seq<char>, f: RemoteView) -> Seq<Seq<char>> {
    let pt = dec(l.video_payload_type as nat);
    let rtx = dec(l.rtx_payload_type as nat);
    seq!["m=video "@ + dec(f.port as nat) + " UDP/TLS/RTP/SAVPF "@ + pt + " "@ + rtx]
        + shared_lines(f, "0"@)
        + seq![
        "a=rtcp-fb:"@ + pt + " ccm fir"@,
        "a=rtcp-fb:"@ + pt + " nack"@,
        "a=rtcp-fb:"@ + pt + " nack pli"@,
        "a=rtcp-fb:"@ + pt + " goog-remb"@,
        "a=rtcp-fb:"@ + pt + " transport-cc"@,
        "a=extmap:2 http://www.webrtc.org/experiments/rtp-hdrext/abs-send-time"@,
        "a=extmap:3 http://www.ietf.org/id/draft-holmer-rmcat-transport-wide-cc-extensions-01"@,
        "a=extmap:14 urn:ietf:params:rtp-hdrext:toffset"@,
        "a=extmap:13 urn:3gpp:video-orientation"@,
        "a=extmap:5 http://www.webrtc.org/experiments/rtp-hdrext/playout-delay"@,
        "a=fmtp:"@ + pt + " x-google-max-bitrate=2500;level-asymmetry-allowed=1;packetization-mode=1;profile-level-id=42e01f"@,
        "a=fmtp:"@ + rtx + " apt="@ + pt,
        "a=rtpmap:"@ + pt + " "@ + codec + "/90000"@,
        "a=rtpmap:"@ + rtx + " rtx/90000"@,
        f.candidate,
        "a=end-of-candidates"@,
    ]
}

pub open spec fn audio_lines(f: RemoteView) -> Seq<Seq<char>> {
    seq!["m=audio "@ + dec(f.port as nat) + " UDP/TLS/RTP/SAVPF 111"@]
        + shared_lines(f, "1"@)
        + seq![
        "a=fmtp:111 minptime=10;useinbandfec=1;usedtx=1"@,
        "a=maxptime:60"@,
        "a=rtpmap:111 opus/48000/2"@,
        "a=rtcp-fb:111 transport-cc"@,
        f.candidate,
    ]
}

/// The lines of the answer: the session lines, the video section, the audio section.
pub open spec fn answer_lines(l: LocalOfferInfo, codec: Seq<char>, f: RemoteView) -> Seq<Seq<char>> {
    session_lines() + video_lines(l, codec, f) + audio_lines(f)
}

/// The remote fragments as sequences of characters.
pub struct RemoteView {
    pub address: Seq<char>,
    pub port: u16,
    pub candidate: Seq<char>,
    pub fingerprint: Seq<char>,
    pub ice_ufrag: Seq<char>,
    pub ice_pwd: Seq<char>,
}

impl RemoteFragments {
    pub open spec fn view_of(&self) -> RemoteView {
        RemoteView {
            address: self.address@,
            port: self.port,
            candidate: self.candidate@,
            fingerprint: self.fingerprint@,
            ice_ufrag: self.ice_ufrag@,
            ice_pwd: self.ice_pwd@,
        }
    }
}

/// Appends one line and its `\n`.
fn emit(out: &mut String, line: &str, Ghost(ls): Ghost<Seq<Seq<char>>>) -> (nls: Ghost<Seq<Seq<char>>>)
    requires
        old(out)@ == join_lines(ls),
    ensures
        nls@ == ls.push(line@),
        final(out)@ == join_lines(nls@),
{
    push_str(out, line);
    push_char(out, '\n');
    let ghost n = ls.push(line@);
    assert(n.drop_last() =~= ls);
    assert(final(out)@ =~= join_lines(n));
    Ghost(n)
}

/// Builds `a + dec(n) + b`.
fn num_line(a: &str, n: u64, b: &str) -> (r: String)
    ensures
        r@ == a@ + dec(n as nat) + b@,
{
    let mut r = owned(a);
    write_dec(&mut r, n);
    push_str(&mut r, b);
    r
}

/// Builds `a + dec(n)`.
fn num_end(a: &str, n: u64) -> (r: String)
    ensures
        r@ == a@ + dec(n as nat),
{
    let mut r = owned(a);
    write_dec(&mut r, n);
    r
}

/// Builds `a + b`.
fn cat(a: &str, b: &str) -> (r: String)
    ensures
        r@ == a@ + b@,
{
    let mut r = owned(a);
    push_str(&mut r, b);
    r
}

fn emit_shared(out: &mut String, f: &RemoteFragments, mid: &str, Ghost(ls): Ghost<Seq<Seq<char>>>) -> (nls: Ghost<Seq<Seq<char>>>)
    requires
        old(out)@ == join_lines(ls),
    ensures
        nls@ == ls + shared_lines(f.view_of(), mid@),
        final(out)@ == join_lines(nls@),
{
    let mut c = owned("c=IN IP4 ");
    push_str(&mut c, f.address.as_str());
    push_str(&mut c, " 127 1");
    let g = emit(out, c.as_str(), Ghost(ls));
    let g = emit(out, num_end("a=rtcp:", f.port as u64).as_str(), g);
    let g = emit(out, f.ice_ufrag.as_str(), g);
    let g = emit(out, f.ice_pwd.as_str(), g);
    let g = emit(out, f.fingerprint.as_str(), g);
    let g = emit(out, "a=setup:passive", g);
    let g = emit(out, cat("a=mid:", mid).as_str(), g);
    let g = emit(out, "a=rtcp-mux", g);
    let g = emit(out, "a=inactive", g);
    assert(g@ =~= ls + shared_lines(f.view_of(), mid@));
    g
}

/// Writes the answer for the local offer's payload types and the remote fragments.
pub fn compose_answer(local: &LocalOfferInfo, encoder: VideoEncoderType, f: &RemoteFragments) -> (r: String)
    ensures
        r@ == join_lines(answer_lines(*local, codec_name_spec(encoder), f.view_of())),
{
    let pt = local.video_payload_type as u64;
    let rtx = local.rtx_payload_type as u64;
    let codec = encoder.codec_name();
    let mut out = String::new();
    let g = emit(&mut out, "v=0", Ghost(Seq::empty()));
    let g = emit(&mut out, "o=- 1420070400000 0 IN IP4 127.0.0.1", g);
    let g = emit(&mut out, "s=-", g);
    let g = emit(&mut out, "t=0 0", g);
    let g = emit(&mut out, "a=msid-semantic: WMS *", g);
    let g = emit(&mut out, "a=group:BUNDLE 0 1", g);
    let ghost after_session = g@;
    let mut m = num_line("m=video ", f.port as u64, " UDP/TLS/RTP/SAVPF ");
    write_dec(&mut m, pt);
    push_char(&mut m, ' ');
    write_dec(&mut m, rtx);
    proof {
        reveal_strlit(" ");
        assert(" "@ =~= seq![' ']);
    }
    assert(m@ =~= "m=video "@ + dec(f.port as nat) + " UDP/TLS/RTP/SAVPF "@ + dec(pt as nat) + " "@ + dec(rtx as nat));
    let g = emit(&mut out, m.as_str(), g);
    let g = emit_shared(&mut out, f, "0", g);
    let g = emit(&mut out, num_line("a=rtcp-fb:", pt, " ccm fir").as_str(), g);
    let g = emit(&mut out, num_line("a=rtcp-fb:", pt, " nack").as_str(), g);
    let g = emit(&mut out, num_line("a=rtcp-fb:", pt, " nack pli").as_str(), g);
    let g = emit(&mut out, num_line("a=rtcp-fb:", pt, " goog-remb").as_str(), g);
    let g = emit(&mut out, num_line("a=rtcp-fb:", pt, " transport-cc").as_str(), g);
    let g = emit(&mut out, "a=extmap:2 http://www.webrtc.org/experiments/rtp-hdrext/abs-send-time", g);
    let g = emit(&mut out, "a=extmap:3 http://www.ietf.org/id/draft-holmer-rmcat-transport-wide-cc-extensions-01", g);
    let g = emit(&mut out, "a=extmap:14 urn:ietf:params:rtp-hdrext:toffset", g);
    let g = emit(&mut out, "a=extmap:13 urn:3gpp:video-orientation", g);
    let g = emit(&mut out, "a=extmap:5 http://www.webrtc.org/experiments/rtp-hdrext/playout-delay", g);
    let g = emit(&mut out, num_line("a=fmtp:", pt, " x-google-max-bitrate=2500;level-asymmetry-allowed=1;packetization-mode=1;profile-level-id=42e01f").as_str(), g);
    let mut apt = num_line("a=fmtp:", rtx, " apt=");
    write_dec(&mut apt, pt);
    let g = emit(&mut out, apt.as_str(), g);
    let mut map = num_line("a=rtpmap:", pt, " ");
    push_str(&mut map, codec.as_str());
    push_str(&mut map, "/90000");
    let g = emit(&mut out, map.as_str(), g);
    let g = emit(&mut out, num_line("a=rtpmap:", rtx, " rtx/90000").as_str(), g);
    let g = emit(&mut out, f.candidate.as_str(), g);
    let g = emit(&mut out, "a=end-of-candidates", g);
    let ghost after_video = g@;
    let g = emit(&mut out, num_line("m=audio ", f.port as u64, " UDP/TLS/RTP/SAVPF 111").as_str(), g);
    let g = emit_shared(&mut out, f, "1", g);
    let g = emit(&mut out, "a=fmtp:111 minptime=10;useinbandfec=1;usedtx=1", g);
    let g = emit(&mut out, "a=maxptime:60", g);
    let g = emit(&mut out, "a=rtpmap:111 opus/48000/2", g);
    let g = emit(&mut out, "a=rtcp-fb:111 transport-cc", g);
    let g = emit(&mut out, f.candidate.as_str(), g);
    let ghost fv = f.view_of();
    let ghost cn = codec_name_spec(encoder);
    assert(after_session =~= session_lines());
    assert(after_video =~= session_lines() + video_lines(*local, cn, fv));
    assert(g@ =~= answer_lines(*local, cn, fv));
    out
}

/// A composed answer and the local offer's values it was built from.
#[derive(Clone, Debug, PartialEq, Eq)]
pub struct ComposedAnswer {
    pub local: LocalOfferInfo,
    pub sdp: String,
}

/// The composed answer's lines, or the name of the first missing fragment:
/// the local offer is read first, then the remote description.
pub open spec fn compose_spec(offer: Seq<char>, remote: Seq<char>, encoder: VideoEncoderType) -> Result<(LocalOfferInfo, Seq<Seq<char>>), Seq<char>> {
    match local_offer_spec(offer, encoder) {
        Err(e) => Err(e),
        Ok(l) => match remote_spec(remote) {
            Err(e) => Err(e),
            Ok((a, p, c, fp, uf, pw)) => Ok((l, answer_lines(l, codec_name_spec(encoder), RemoteView {
                address: a, port: p, candidate: c, fingerprint: fp, ice_ufrag: uf, ice_pwd: pw,
            }))),
        },
    }
}

/// Composes the answer to the local offer from the gateway's session description.
pub fn compose(offer: &str, remote_sdp: &str, encoder: VideoEncoderType) -> (r: Result<ComposedAnswer, SessionError>)
    ensures
        r matches Ok(a) ==> compose_spec(offer@, remote_sdp@, encoder) matches Ok((l, ls))
            && a.local == l && a.sdp@ == join_lines(ls),
        r matches Err(e) ==> e matches SessionError::SdpComposition(name)
            && compose_spec(offer@, remote_sdp@, encoder) == Err::<(LocalOfferInfo, Seq<Seq<char>>), Seq<char>>(name@),
{
    let local = read_local_offer(offer, encoder)?;
    let f = harvest_remote(remote_sdp)?;
    let sdp = compose_answer(&local, encoder, &f);
    Ok(ComposedAnswer { local, sdp })
}

proof fn lemma_first_line_none(ls: Seq<Seq<char>>, lo: int, hi: int, pre: Seq<char>, suf: Seq<char>)
    requires
        forall|i: int| 0 <= i < ls.len() ==> !line_matches(#[trigger] ls[i], pre, suf),
        0 <= lo,
        hi <= ls.len(),
    ensures
        first_line(ls, lo, hi, pre, suf) is None,
    decreases hi - lo,
{
    if lo < hi {
        assert(!line_matches(ls[lo], pre, suf));
        lemma_first_line_none(ls, lo + 1, hi, pre, suf);
    }
}

proof fn lemma_block_end_bound(ls: Seq<Seq<char>>, start: int)
    ensures
        block_end(ls, start) <= ls.len(),
{
    lemma_first_line_matches(ls, start + 1, ls.len() as int, "m="@, Seq::empty());
}

/// A local offer with no `a=rtpmap:` line ending in `rtx/90000` makes the
/// composer fail with `SdpComposition("rtx")`, whatever the gateway sent.
pub proof fn lemma_missing_rtx(offer: Seq<char>, remote: Seq<char>, encoder: VideoEncoderType)
    requires
        forall|i: int| 0 <= i < clean_lines(offer).len()
            ==> !line_matches(#[trigger] clean_lines(offer)[i], "a=rtpmap:"@, clock_suffix("rtx"@)),
    ensures
        local_offer_spec(offer, encoder) == Err::<LocalOfferInfo, Seq<char>>("rtx"@),
        compose_spec(offer, remote, encoder) == Err::<(LocalOfferInfo, Seq<Seq<char>>), Seq<char>>("rtx"@),
{
    let ls = clean_lines(offer);
    let (vlo, vhi) = video_block(ls);
    lemma_first_line_matches(ls, 0, ls.len() as int, "m=video"@, Seq::empty());
    if let Some(vs) = first_line(ls, 0, ls.len() as int, "m=video"@, Seq::empty()) {
        lemma_block_end_bound(ls, vs);
    }
    lemma_first_line_none(ls, vlo, vhi, "a=rtpmap:"@, clock_suffix("rtx"@));
}

/// A session description with no connection line makes the composer fail
/// with `SdpComposition("connection")`, once the local offer has been read.
pub proof fn lemma_missing_connection(offer: Seq<char>, remote: Seq<char>, encoder: VideoEncoderType)
    requires
        local_offer_spec(offer, encoder) is Ok,
        forall|i: int| 0 <= i < clean_lines(remote).len()
            ==> !starts_with(#[trigger] clean_lines(remote)[i], "c=IN IP4 "@),
    ensures
        remote_spec(remote) == Err::<(Seq<char>, u16, Seq<char>, Seq<char>, Seq<char>, Seq<char>), Seq<char>>("connection"@),
        compose_spec(offer, remote, encoder) == Err::<(LocalOfferInfo, Seq<Seq<char>>), Seq<char>>("connection"@),
{
    let ls = clean_lines(remote);
    assert forall|i: int| 0 <= i < ls.len() implies !line_matches(#[trigger] ls[i], "c=IN IP4 "@, Seq::empty()) by {
        assert(!starts_with(ls[i], "c=IN IP4 "@));
    }
    lemma_first_line_none(ls, 0, ls.len() as int, "c=IN IP4 "@, Seq::empty());
}

pub open spec fn has_line_with(ls: Seq<Seq<char>>, pre: Seq<char>) -> bool {
    exists|i: int| 0 <= i < ls.len() && starts_with(#[trigger] ls[i], pre)
}

/// Exactly two media lines, video then audio, with mid 0 in the video
/// section and mid 1 in the audio section.
pub open spec fn two_sections_in_order(ls: Seq<Seq<char>>) -> bool {
    exists|v: int, a: int| {
        &&& 0 <= v < a < ls.len()
        &&& starts_with(#[trigger] ls[v], "m=video"@) && starts_with(#[trigger] ls[a], "m=audio"@)
        &&& forall|i: int| 0 <= i < ls.len() && starts_with(#[trigger] ls[i], "m="@) ==> i == v || i == a
        &&& exists|k: int| v < k < a && #[trigger] ls[k] == "a=mid:0"@
        &&& exists|k: int| a < k < ls.len() && #[trigger] ls[k] == "a=mid:1"@
    }
}

proof fn lemma_first_line_matches(ls: Seq<Seq<char>>, lo: int, hi: int, pre: Seq<char>, suf: Seq<char>)
    ensures
        first_line(ls, lo, hi, pre, suf) matches Some(i) ==> lo <= i < hi && line_matches(ls[i], pre, suf),
    decreases hi - lo,
{
    if lo < hi && !line_matches(ls[lo], pre, suf) {
        lemma_first_line_matches(ls, lo + 1, hi, pre, suf);
    }
}

proof fn lemma_line_with(ls: Seq<Seq<char>>, pre: Seq<char>)
    ensures
        line_with(ls, pre) matches Some(l) ==> starts_with(l, pre),
{
    lemma_first_line_matches(ls, 0, ls.len() as int, pre, Seq::empty());
}

/// A composed answer carries a candidate, fingerprint, ice-ufrag, ice-pwd,
/// rtcp-mux and setup line, and exactly two media sections: video with mid 0,
/// then audio with mid 1.
pub proof fn lemma_answer_shape(offer: Seq<char>, remote: Seq<char>, encoder: VideoEncoderType)
    ensures
        compose_spec(offer, remote, encoder) matches Ok((_, ls)) ==> {
            &&& has_line_with(ls, "a=candidate:"@)
            &&& has_line_with(ls, "a=fingerprint:"@)
            &&& has_line_with(ls, "a=ice-ufrag:"@)
            &&& has_line_with(ls, "a=ice-pwd:"@)
            &&& has_line_with(ls, "a=rtcp-mux"@)
            &&& has_line_with(ls, "a=setup:"@)
            &&& two_sections_in_order(ls)
        },
{
    if let Ok((l, ls)) = compose_spec(offer, remote, encoder) {
        let rl = clean_lines(remote);
        lemma_line_with(rl, "a=candidate:"@);
        lemma_line_with(rl, "a=fingerprint:"@);
        lemma_line_with(rl, "a=ice-ufrag:"@);
        lemma_line_with(rl, "a=ice-pwd:"@);
        let (a, p, c, fp, uf, pw) = remote_spec(remote)->Ok_0;
        let f = RemoteView { address: a, port: p, candidate: c, fingerprint: fp, ice_ufrag: uf, ice_pwd: pw };
        let cn = codec_name_spec(encoder);
        assert(ls == answer_lines(l, cn, f));
        let pt = dec(l.video_payload_type as nat);
        let rtx = dec(l.rtx_payload_type as nat);
        reveal_strlit("a=rtcp-mux");
        reveal_strlit("a=setup:");
        reveal_strlit("a=setup:passive");
        reveal_strlit("a=mid:");
        reveal_strlit("a=mid:0");
        reveal_strlit("a=mid:1");
        reveal_strlit("0");
        reveal_strlit("1");
        reveal_strlit("m=video");
        reveal_strlit("m=video ");
        reveal_strlit("m=audio");
        reveal_strlit("m=audio ");
        assert(ls[30] == c);
        assert(ls[11] == fp);
        assert(ls[9] == uf);
        assert(ls[10] == pw);
        assert(ls[14] == "a=rtcp-mux"@);
        assert(starts_with(ls[14], "a=rtcp-mux"@)) by {
            assert(ls[14].take(ls[14].len() as int) =~= ls[14]);
        }
        assert(starts_with(ls[12], "a=setup:"@)) by {
            assert(ls[12] == "a=setup:passive"@);
            assert(ls[12].take(8) =~= "a=setup:"@);
        }
        assert(ls[13] =~= "a=mid:0"@);
        assert(ls[39] =~= "a=mid:1"@);
        assert(starts_with(ls[6], "m=video"@)) by {
            assert(ls[6].take(7) =~= "m=video"@);
        }
        assert(starts_with(ls[32], "m=audio"@)) by {
            assert(ls[32].take(7) =~= "m=audio"@);
        }
        assert forall|i: int| 0 <= i < ls.len() && starts_with(#[trigger] ls[i], "m="@) implies i == 6 || i == 32 by {
            if i != 6 && i != 32 {
                lemma_not_media_line(l, cn, f, i);
            }
        }
    }
}

proof fn lemma_not_media_line(l: LocalOfferInfo, cn: Seq<char>, f: RemoteView, i: int)
    requires
        0 <= i < answer_lines(l, cn, f).len(),
        i != 6 && i != 32,
        starts_with(f.candidate, "a=candidate:"@),
        starts_with(f.fingerprint, "a=fingerprint:"@),
        starts_with(f.ice_ufrag, "a=ice-ufrag:"@),
        starts_with(f.ice_pwd, "a=ice-pwd:"@),
    ensures
        !starts_with(answer_lines(l, cn, f)[i], "m="@),
{
    let ls = answer_lines(l, cn, f);
    let x = ls[i];
    reveal_strlit("m=");
    reveal_strlit("a=candidate:");
    reveal_strlit("a=fingerprint:");
    reveal_strlit("a=ice-ufrag:");
    reveal_strlit("a=ice-pwd:");
    reveal_strlit("v=0");
    reveal_strlit("o=- 1420070400000 0 IN IP4 127.0.0.1");
    reveal_strlit("s=-");
    reveal_strlit("t=0 0");
    reveal_strlit("a=msid-semantic: WMS *");
    reveal_strlit("a=group:BUNDLE 0 1");
    reveal_strlit("c=IN IP4 ");
    reveal_strlit("a=rtcp:");
    reveal_strlit("a=setup:passive");
    reveal_strlit("a=mid:");
    reveal_strlit("a=rtcp-mux");
    reveal_strlit("a=inactive");
    reveal_strlit("a=rtcp-fb:");
    reveal_strlit("a=extmap:2 http://www.webrtc.org/experiments/rtp-hdrext/abs-send-time");
    reveal_strlit("a=extmap:3 http://www.ietf.org/id/draft-holmer-rmcat-transport-wide-cc-extensions-01");
    reveal_strlit("a=extmap:14 urn:ietf:params:rtp-hdrext:toffset");
    reveal_strlit("a=extmap:13 urn:3gpp:video-orientation");
    reveal_strlit("a=extmap:5 http://www.webrtc.org/experiments/rtp-hdrext/playout-delay");
    reveal_strlit("a=fmtp:");
    reveal_strlit("a=rtpmap:");
    reveal_strlit("a=end-of-candidates");
    reveal_strlit("a=fmtp:111 minptime=10;useinbandfec=1;usedtx=1");
    reveal_strlit("a=maxptime:60");
    reveal_strlit("a=rtpmap:111 opus/48000/2");
    reveal_strlit("a=rtcp-fb:111 transport-cc");
    if starts_with(x, "m="@) {
        assert(x.take(2)[0] == x[0]);
        assert(x.take(2)[1] == x[1]);
        assert(x[0] == 'm');
        assert(f.candidate.take(12)[0] == f.candidate[0]);
        assert(f.fingerprint.take(14)[0] == f.fingerprint[0]);
        assert(f.ice_ufrag.take(12)[0] == f.ice_ufrag[0]);
        assert(f.ice_pwd.take(10)[0] == f.ice_pwd[0]);
        assert(false);
    }
}

} // verus!
