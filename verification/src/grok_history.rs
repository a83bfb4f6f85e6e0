//! Grok session helpers: stable session ids, session folder names and
//! history replay into a thread.

use vstd::prelude::*;
use vstd::string::StringSliceAdditionalSpecFns;
use crate::json::{
    as_array_s, as_str_s, get_s, get_str, get_str_s, json_nodes, json_parse, keep_some,
    lemma_keep_some_step, parse_value, value_as_array, value_as_str, value_get, Node,
};
use crate::text::{
    chars_of, eq_str, find_first, first_occ, join_s, join_vecs, lemma_views_push, lines_of,
    lines_s, occurs_at, string_of, sub_vec, trim_s, trim_vec, views,
};
use crate::workbench::{join_paths, is_sep, plain_base, plain_leaf, plain_rel, sep_joined, sep_path};
use crate::workspace::{ChatMessage, Role};

verus! {

/// One user or assistant line from a session history.
#[derive(Debug, Clone, PartialEq, Eq)]
pub struct HistoryLine {
    pub role: Role,
    pub text: String,
}

pub const FNV_PRIME: u64 = 0x0000_0100_0000_01b3;

pub open spec fn rotl11(x: u64) -> u64 {
    (x << 11u64) | (x >> 53u64)
}

/// One byte into the hash state `(hi, lo)`.
pub open spec fn hash_step(h: (u64, u64), b: u8) -> (u64, u64) {
    let hi = (h.0 ^ (b as u64)).wrapping_mul(FNV_PRIME);
    let lo = (h.1 ^ rotl11(hi)).wrapping_mul(FNV_PRIME);
    (hi, lo)
}

fn absorb(hi: &mut u64, lo: &mut u64, b: u8)
    ensures
        (*final(hi), *final(lo)) == hash_step((*old(hi), *old(lo)), b),
{
    *hi = *hi ^ (b as u64);
    *hi = hi.wrapping_mul(FNV_PRIME);
    let rot = (*hi << 11u64) | (*hi >> 53u64);
    *lo = *lo ^ rot;
    *lo = lo.wrapping_mul(FNV_PRIME);
}

/// Hash state `(hi, lo)` after the first `n` bytes.
pub open spec fn hash_state(bytes: Seq<u8>, n: int) -> (u64, u64)
    decreases n,
{
    if n <= 0 || n > bytes.len() {
        (0xcbf2_9ce4_8422_2325u64, 0x0000_0100_0000_01b3u64)
    } else {
        hash_step(hash_state(bytes, n - 1), bytes[n - 1])
    }
}

pub open spec fn hex_char(d: nat) -> char {
    if d < 10 {
        (('0' as u32) + d) as char
    } else {
        (('a' as u32) + d - 10) as char
    }
}

/// The low `w` hex digits of `v`, most significant first, lowercase.
pub open spec fn hex_w(v: nat, w: nat) -> Seq<char>
    decreases w,
{
    if w == 0 {
        Seq::empty()
    } else {
        hex_w(v / 16, (w - 1) as nat).push(hex_char(v % 16))
    }
}

/// `8-4-4-4-12` lowercase hex of the hash of `project` then `thread_id`, with
/// the version nibble 4 and the variant bits `10`.
pub open spec fn session_uuid(bytes: Seq<u8>) -> Seq<char> {
    let (hi, lo) = hash_state(bytes, bytes.len() as int);
    let time = (hi >> 32u64) as u32;
    let mid = (hi >> 16u64) as u16;
    let ver = ((hi as u16) & 0x0fffu16) | 0x4000u16;
    let var = (((lo >> 48u64) as u16) & 0x3fffu16) | 0x8000u16;
    let node = lo & 0x0000_ffff_ffff_ffffu64;
    hex_w(time as nat, 8) + seq!['-'] + hex_w(mid as nat, 4) + seq!['-'] + hex_w(ver as nat, 4)
        + seq!['-'] + hex_w(var as nat, 4) + seq!['-'] + hex_w(node as nat, 12)
}

pub open spec fn pow16(k: nat) -> nat
    decreases k,
{
    if k == 0 {
        1
    } else {
        16 * pow16((k - 1) as nat)
    }
}

proof fn lemma_pow16_step(v: nat, k: nat)
    ensures
        v / pow16(k + 1) == (v / pow16(k)) / 16,
        pow16(k) > 0,
    decreases k,
{
    if k > 0 {
        lemma_pow16_step(v, (k - 1) as nat);
    }
    assert(pow16(k + 1) == 16 * pow16(k));
    vstd::arithmetic::div_mod::lemma_div_denominator(v as int, pow16(k) as int, 16);
    assert(pow16(k) * 16 == 16 * pow16(k)) by (nonlinear_arith);
}

proof fn lemma_hex_w_len(v: nat, w: nat)
    ensures
        hex_w(v, w).len() == w,
    decreases w,
{
    if w > 0 {
        lemma_hex_w_len(v / 16, (w - 1) as nat);
    }
}

/// The first of `w` hex digits is the digit of `16^(w-1)`.
proof fn lemma_hex_w_first(v: nat, w: nat)
    requires
        w >= 1,
    ensures
        hex_w(v, w)[0] == hex_char((v / pow16((w - 1) as nat)) % 16),
    decreases w,
{
    lemma_hex_w_len(v, w);
    if w == 1 {
        assert(pow16(0) == 1);
        assert(v / 1 == v);
    } else {
        lemma_hex_w_first(v / 16, (w - 1) as nat);
        lemma_hex_w_len(v / 16, (w - 1) as nat);
        lemma_pow16_step(v, (w - 2) as nat);
        vstd::arithmetic::div_mod::lemma_div_denominator(v as int, 16, pow16((w - 2) as nat) as int);
        assert(16 * pow16((w - 2) as nat) == pow16((w - 1) as nat));
        assert((v / 16) / pow16((w - 2) as nat) == v / pow16((w - 1) as nat));
    }
}

/// A session id is `8-4-4-4-12` hex with the version digit `4` and a
/// variant digit of `8`, `9`, `a` or `b`.
pub proof fn law_session_uuid_shape(bytes: Seq<u8>)
    ensures
        session_uuid(bytes).len() == 36,
        session_uuid(bytes)[8] == '-',
        session_uuid(bytes)[13] == '-',
        session_uuid(bytes)[18] == '-',
        session_uuid(bytes)[23] == '-',
        session_uuid(bytes)[14] == '4',
        session_uuid(bytes)[19] == '8' || session_uuid(bytes)[19] == '9' || session_uuid(bytes)[19]
            == 'a' || session_uuid(bytes)[19] == 'b',
{
    let (hi, lo) = hash_state(bytes, bytes.len() as int);
    let time = (hi >> 32u64) as u32;
    let mid = (hi >> 16u64) as u16;
    let h16 = hi as u16;
    let ver = (h16 & 0x0fffu16) | 0x4000u16;
    let l16 = (lo >> 48u64) as u16;
    let var = (l16 & 0x3fffu16) | 0x8000u16;
    let node = lo & 0x0000_ffff_ffff_ffffu64;
    lemma_hex_w_len(time as nat, 8);
    lemma_hex_w_len(mid as nat, 4);
    lemma_hex_w_len(ver as nat, 4);
    lemma_hex_w_len(var as nat, 4);
    lemma_hex_w_len(node as nat, 12);
    lemma_hex_w_first(ver as nat, 4);
    lemma_hex_w_first(var as nat, 4);
    assert(pow16(3) == 4096) by {
        assert(pow16(0) == 1);
        assert(pow16(1) == 16);
        assert(pow16(2) == 256);
    }
    assert(ver / 4096 == 4) by (bit_vector)
        requires
            ver == (h16 & 0x0fffu16) | 0x4000u16,
    ;
    assert(8 <= var / 4096 <= 11) by (bit_vector)
        requires
            var == (l16 & 0x3fffu16) | 0x8000u16,
    ;
    assert((ver as nat / 4096) % 16 == 4);
    let u = session_uuid(bytes);
    let a = hex_w(time as nat, 8);
    let b = hex_w(mid as nat, 4);
    let c = hex_w(ver as nat, 4);
    let d = hex_w(var as nat, 4);
    let e = hex_w(node as nat, 12);
    assert(u == a + seq!['-'] + b + seq!['-'] + c + seq!['-'] + d + seq!['-'] + e);
    assert(u[14] == c[0]);
    assert(u[19] == d[0]);
}

fn push_hex(out: &mut Vec<char>, v: u64, w: usize)
    requires
        w <= 16,
    ensures
        final(out)@ == old(out)@ + hex_w(v as nat, w as nat),
{
    let mut digits: Vec<char> = Vec::new();
    let mut k: usize = 0;
    let mut x: u64 = v;
    assert(pow16(0) == 1);
    assert((v as nat) / 1 == v as nat);
    assert(hex_w(v as nat, w as nat) =~= hex_w(v as nat, w as nat) + digits@);
    while k < w
        invariant
            k <= w,
            x as nat == (v as nat) / pow16(k as nat),
            hex_w(v as nat, w as nat) == hex_w(x as nat, (w - k) as nat) + digits@,
        decreases w - k,
    {
        let d = x % 16;
        let c = if d < 10 {
            ((d as u8) + 48) as char
        } else {
            ((d as u8) + 87) as char
        };
        let ghost before = digits@;
        digits.insert(0, c);
        proof {
            lemma_pow16_step(v as nat, k as nat);
            assert(hex_w(x as nat, (w - k) as nat) == hex_w((x as nat) / 16, (w - k - 1) as nat).push(
                hex_char((x as nat) % 16),
            ));
            assert(digits@ =~= seq![hex_char((x as nat) % 16)] + before);
            assert(hex_w((x as nat) / 16, (w - k - 1) as nat).push(hex_char((x as nat) % 16))
                + before =~= hex_w((x as nat) / 16, (w - k - 1) as nat) + digits@);
        }
        x = x / 16;
        k = k + 1;
    }
    crate::text::append_vec(out, &digits);
}

/// Deterministic UUID so a thread finds the same session after restart.
pub fn grok_session_uuid(project: &str, thread_id: &str) -> (r: String)
    ensures
        r@ == session_uuid(project.spec_bytes() + thread_id.spec_bytes()),
{
    let pb = project.as_bytes();
    let tb = thread_id.as_bytes();
    let ghost bytes = pb@ + tb@;
    let mut hi: u64 = 0xcbf2_9ce4_8422_2325;
    let mut lo: u64 = 0x0000_0100_0000_01b3;
    let mut i: usize = 0;
    while i < pb.len()
        invariant
            bytes == pb@ + tb@,
            i <= pb.len(),
            (hi, lo) == hash_state(bytes, i as int),
        decreases pb.len() - i,
    {
        assert(pb@[i as int] == bytes[i as int]);
        absorb(&mut hi, &mut lo, pb[i]);
        i = i + 1;
    }
    let mut j: usize = 0;
    while j < tb.len()
        invariant
            bytes == pb@ + tb@,
            j <= tb.len(),
            (hi, lo) == hash_state(bytes, pb@.len() + j),
        decreases tb.len() - j,
    {
        assert(tb@[j as int] == bytes[pb@.len() + j]);
        absorb(&mut hi, &mut lo, tb[j]);
        j = j + 1;
    }
    #[verifier::truncate]
    let time = (hi >> 32u64) as u32;
    #[verifier::truncate]
    let mid = (hi >> 16u64) as u16;
    #[verifier::truncate]
    let hi16 = hi as u16;
    let ver = (hi16 & 0x0fffu16) | 0x4000u16;
    #[verifier::truncate]
    let lo16 = (lo >> 48u64) as u16;
    let var = (lo16 & 0x3fffu16) | 0x8000u16;
    let node = lo & 0x0000_ffff_ffff_ffffu64;
    let mut out: Vec<char> = Vec::new();
    push_hex(&mut out, time as u64, 8);
    out.push('-');
    push_hex(&mut out, mid as u64, 4);
    out.push('-');
    push_hex(&mut out, ver as u64, 4);
    out.push('-');
    push_hex(&mut out, var as u64, 4);
    out.push('-');
    push_hex(&mut out, node, 12);
    let r = string_of(&out);
    assert(r@ =~= session_uuid(bytes));
    r
}

/// Bytes kept as they are in a session folder name.
pub open spec fn keep_byte(b: u8) -> bool {
    (0x30 <= b <= 0x39) || (0x41 <= b <= 0x5a) || (0x61 <= b <= 0x7a) || b == 0x2d || b == 0x5f
        || b == 0x2e || b == 0x7e
}

pub open spec fn upper_hex(d: nat) -> char {
    if d < 10 {
        (('0' as u32) + d) as char
    } else {
        (('A' as u32) + d - 10) as char
    }
}

/// Percent-encoding of the first `n` bytes: unreserved bytes kept,
/// everything else `%XX` (uppercase).
pub open spec fn pct_encode(bytes: Seq<u8>, n: int) -> Seq<char>
    decreases n,
{
    if n <= 0 || n > bytes.len() {
        Seq::empty()
    } else {
        let b = bytes[n - 1];
        pct_encode(bytes, n - 1) + if keep_byte(b) {
            seq![b as char]
        } else {
            seq!['%', upper_hex((b / 16) as nat), upper_hex((b % 16) as nat)]
        }
    }
}

/// A char that may stand in an encoded session folder name.
pub open spec fn folder_char(c: char) -> bool {
    ('0' <= c && c <= '9') || ('A' <= c && c <= 'Z') || ('a' <= c && c <= 'z') || c == '-'
        || c == '_' || c == '.' || c == '~' || c == '%'
}

/// An encoded cwd is made of folder-name chars only: no path separator,
/// drive colon or space survives.
pub proof fn law_encoded_cwd_is_one_folder_name(bytes: Seq<u8>, n: int)
    ensures
        forall|k: int| 0 <= k < pct_encode(bytes, n).len() ==> folder_char(#[trigger] pct_encode(bytes, n)[k]),
    decreases n,
{
    if n <= 0 || n > bytes.len() {
    } else {
        law_encoded_cwd_is_one_folder_name(bytes, n - 1);
        let b = bytes[n - 1];
        let prev = pct_encode(bytes, n - 1);
        let tail = if keep_byte(b) {
            seq![b as char]
        } else {
            seq!['%', upper_hex((b / 16) as nat), upper_hex((b % 16) as nat)]
        };
        assert(pct_encode(bytes, n) == prev + tail);
        assert forall|k: int| 0 <= k < tail.len() implies folder_char(#[trigger] tail[k]) by {
            if keep_byte(b) {
                assert((b as char) as u32 == b as u32);
            } else {
                let hi = (b / 16) as nat;
                let lo = (b % 16) as nat;
                assert(hi < 16 && lo < 16);
            }
        }
        assert forall|k: int| 0 <= k < pct_encode(bytes, n).len() implies folder_char(
            #[trigger] pct_encode(bytes, n)[k],
        ) by {
            if k < prev.len() {
                assert(pct_encode(bytes, n)[k] == prev[k]);
            } else {
                assert(pct_encode(bytes, n)[k] == tail[k - prev.len()]);
            }
        }
    }
}

/// An unreserved char of a folder name: ASCII letter or digit, `-`, `_`,
/// `.` or `~`.
pub open spec fn unreserved(c: char) -> bool {
    ('a' <= c && c <= 'z') || ('A' <= c && c <= 'Z') || ('0' <= c && c <= '9') || c == '-' || c
        == '_' || c == '.' || c == '~'
}

/// Hex digit of `d < 16`, upper case.
pub open spec fn hex_digit(d: int) -> char {
    if d < 10 {
        (('0' as u32) + d) as char
    } else {
        (('A' as u32) + d - 10) as char
    }
}

/// Each byte is encoded on its own: an unreserved byte stands for itself,
/// any other byte becomes `%` and its two upper-case hex digits.
pub proof fn law_pct_encode_byte(bytes: Seq<u8>, n: int)
    requires
        0 < n <= bytes.len(),
    ensures
        pct_encode(bytes, n) == pct_encode(bytes, n - 1) + if unreserved(bytes[n - 1] as char) {
            seq![bytes[n - 1] as char]
        } else {
            seq!['%', hex_digit((bytes[n - 1] / 16) as int), hex_digit((bytes[n - 1] % 16) as int)]
        },
{
    let b = bytes[n - 1];
    assert(keep_byte(b) == unreserved(b as char)) by {
        assert((b as char) as u32 == b as u32);
    }
}

proof fn lemma_pct_all_kept(bytes: Seq<u8>, n: int)
    requires
        0 <= n <= bytes.len(),
        forall|i: int| 0 <= i < bytes.len() ==> unreserved(#[trigger] bytes[i] as char),
    ensures
        pct_encode(bytes, n) == bytes.take(n).map_values(|b: u8| b as char),
    decreases n,
{
    if n > 0 {
        lemma_pct_all_kept(bytes, n - 1);
        law_pct_encode_byte(bytes, n);
        assert(bytes.take(n).map_values(|b: u8| b as char) =~= bytes.take(n - 1).map_values(
            |b: u8| b as char,
        ) + seq![bytes[n - 1] as char]);
    } else {
        assert(bytes.take(0).map_values(|b: u8| b as char) =~= Seq::<char>::empty());
    }
}

/// A cwd made only of unreserved chars names its session folder as is.
pub proof fn law_plain_cwd_is_its_own_folder(cwd: &str)
    requires
        forall|i: int| 0 <= i < cwd@.len() ==> unreserved(#[trigger] cwd@[i]),
    ensures
        encode_cwd_view(cwd) == cwd@,
{
    let cs = cwd@;
    let bs = cwd.spec_bytes();
    assert(vstd::utf8::is_ascii_chars(cs));
    vstd::utf8::is_ascii_chars_encode_utf8(cs);
    assert(bs == vstd::utf8::encode_utf8(cs));
    assert forall|i: int| 0 <= i < bs.len() implies unreserved(#[trigger] bs[i] as char) by {
        assert(cs[i] as u8 == bs[i]);
        assert((bs[i] as char) == cs[i]);
    }
    lemma_pct_all_kept(bs, bs.len() as int);
    assert(bs.take(bs.len() as int) =~= bs);
    assert(bs.map_values(|b: u8| b as char) =~= cs) by {
        assert forall|i: int| 0 <= i < cs.len() implies bs.map_values(|b: u8| b as char)[i] == cs[i] by {
            assert(cs[i] as u8 == bs[i]);
        }
    }
}

pub open spec fn encode_cwd_view(cwd: &str) -> Seq<char> {
    pct_encode(cwd.spec_bytes(), cwd.spec_bytes().len() as int)
}

/// Percent-encode a cwd the way grok names its session folders.
pub fn encode_session_cwd(cwd: &str) -> (r: String)
    ensures
        r@ == encode_cwd_view(cwd),
{
    let bs = cwd.as_bytes();
    let mut out: Vec<char> = Vec::new();
    let mut i: usize = 0;
    while i < bs.len()
        invariant
            bs@ == cwd.spec_bytes(),
            i <= bs.len(),
            out@ == pct_encode(bs@, i as int),
        decreases bs.len() - i,
    {
        let b = bs[i];
        let ghost before = out@;
        if (0x30 <= b && b <= 0x39) || (0x41 <= b && b <= 0x5a) || (0x61 <= b && b <= 0x7a) || b
            == 0x2d || b == 0x5f || b == 0x2e || b == 0x7e {
            out.push(b as char);
        } else {
            let hi = b / 16;
            let lo = b % 16;
            let h = if hi < 10 {
                (hi + 48) as char
            } else {
                (hi + 55) as char
            };
            let l = if lo < 10 {
                (lo + 48) as char
            } else {
                (lo + 55) as char
            };
            out.push('%');
            out.push(h);
            out.push(l);
        }
        assert(out@ =~= pct_encode(bs@, i + 1));
        i = i + 1;
    }
    string_of(&out)
}

proof fn lemma_plain_step(base: Seq<char>, r: Seq<char>, leaf: Seq<char>)
    requires
        plain_base(base),
        plain_leaf(leaf),
        sep_joined(r, base, leaf),
    ensures
        plain_base(r),
{
    assert(r[0] == r.take(base.len() as int)[0]);
    assert(r.last() == r.skip(base.len() + 1 as int).last());
}

proof fn lemma_history_path(
    home: Seq<char>,
    a: Seq<char>,
    enc: Seq<char>,
    b: Seq<char>,
    id: Seq<char>,
    c: Seq<char>,
    r: Seq<char>,
    cwd: &str,
)
    requires
        plain_base(home),
        cwd@.len() > 0,
        plain_leaf(id),
        enc == encode_cwd_view(cwd),
        plain_base(home) && plain_rel("sessions"@) ==> sep_joined(a, home, "sessions"@),
        plain_base(a) && plain_rel(enc) ==> sep_joined(b, a, enc),
        plain_base(b) && plain_rel(id) ==> sep_joined(c, b, id),
        plain_base(c) && plain_rel("chat_history.jsonl"@) ==> sep_joined(r, c, "chat_history.jsonl"@),
    ensures
        sep_path(r, seq![home, "sessions"@, enc, id, "chat_history.jsonl"@]),
{
    reveal_strlit("sessions");
    reveal_strlit("chat_history.jsonl");
    lemma_encoded_cwd_leaf(cwd);
    assert(plain_leaf("sessions"@));
    assert(plain_rel("chat_history.jsonl"@));
    lemma_plain_step(home, a, "sessions"@);
    lemma_plain_step(a, b, enc);
    lemma_plain_step(b, c, id);
    let p1: Seq<Seq<char>> = seq![home];
    let p2 = p1.push("sessions"@);
    let p3 = p2.push(enc);
    let p4 = p3.push(id);
    let p5 = p4.push("chat_history.jsonl"@);
    assert(p2.drop_last() =~= p1);
    assert(p3.drop_last() =~= p2);
    assert(p4.drop_last() =~= p3);
    assert(p5.drop_last() =~= p4);
    assert(sep_path(home, p1));
    assert(sep_path(a, p2));
    assert(sep_path(b, p3));
    assert(sep_path(c, p4));
    assert(sep_path(r, p5));
    assert(p5 =~= seq![home, "sessions"@, enc, id, "chat_history.jsonl"@]);
}

/// An encoded non-empty cwd is a plain path leaf.
proof fn lemma_encoded_cwd_leaf(cwd: &str)
    requires
        cwd@.len() > 0,
    ensures
        plain_leaf(encode_cwd_view(cwd)),
{
    let bs = cwd.spec_bytes();
    let e = encode_cwd_view(cwd);
    law_encoded_cwd_is_one_folder_name(bs, bs.len() as int);
    assert(bs == vstd::utf8::encode_utf8(cwd@));
    assert(bs.len() > 0);
    assert(e.len() > 0);
    assert forall|k: int| 0 <= k < e.len() implies #[trigger] e[k] != ':' by {
        assert(folder_char(e[k]));
    }
    assert(folder_char(e[0]));
    assert(folder_char(e.last()));
}

/// `<home>/sessions/<encoded cwd>/<session id>/chat_history.jsonl`, with the
/// platform's separator.
pub fn grok_history_path(grok_home: &str, cwd: &str, session_id: &str) -> (r: String)
    ensures
        plain_base(grok_home@) && cwd@.len() > 0 && plain_leaf(session_id@) ==> sep_path(
            r@,
            seq![
                grok_home@,
                "sessions"@,
                encode_cwd_view(cwd),
                session_id@,
                "chat_history.jsonl"@,
            ],
        ),
{
    let a = join_paths(grok_home, "sessions");
    let enc = encode_session_cwd(cwd);
    let b = join_paths(a.as_str(), enc.as_str());
    let c = join_paths(b.as_str(), session_id);
    let r = join_paths(c.as_str(), "chat_history.jsonl");
    proof {
        if plain_base(grok_home@) && cwd@.len() > 0 && plain_leaf(session_id@) {
            lemma_history_path(grok_home@, a@, enc@, b@, session_id@, c@, r@, cwd);
        }
    }
    r
}

pub open spec fn message_view(m: ChatMessage) -> (Role, Seq<char>) {
    (m.role, m.text@)
}

pub open spec fn history_view(h: HistoryLine) -> (Role, Seq<char>) {
    (h.role, h.text@)
}

/// Replace the thread's messages by the history unless it is empty or
/// already the same; true when they were replaced.
pub fn apply_grok_history(messages: &mut Vec<ChatMessage>, incoming: &[HistoryLine]) -> (r: bool)
    ensures
        ({
            let inc = incoming@.map_values(|h: HistoryLine| history_view(h));
            let old_m = old(messages)@.map_values(|m: ChatMessage| message_view(m));
            let new_m = final(messages)@.map_values(|m: ChatMessage| message_view(m));
            &&& r == (inc.len() > 0 && inc != old_m)
            &&& r ==> new_m == inc
            &&& !r ==> final(messages)@ == old(messages)@
        }),
{
    if incoming.len() == 0 {
        return false;
    }
    let mut mapped: Vec<ChatMessage> = Vec::new();
    let mut i: usize = 0;
    while i < incoming.len()
        invariant
            i <= incoming.len(),
            mapped@.map_values(|m: ChatMessage| message_view(m)) == incoming@.take(
                i as int,
            ).map_values(|h: HistoryLine| history_view(h)),
        decreases incoming.len() - i,
    {
        let ghost before = mapped@;
        let msg = ChatMessage { role: incoming[i].role, text: incoming[i].text.clone() };
        assert(message_view(msg) == history_view(incoming@[i as int]));
        assert(incoming@.take(i + 1) =~= incoming@.take(i as int).push(incoming@[i as int]));
        mapped.push(msg);
        assert(mapped@.map_values(|m: ChatMessage| message_view(m)) =~= before.map_values(
            |m: ChatMessage| message_view(m),
        ).push(message_view(msg)));
        assert(incoming@.take(i + 1).map_values(|h: HistoryLine| history_view(h)) =~= incoming@.take(
            i as int,
        ).map_values(|h: HistoryLine| history_view(h)).push(history_view(incoming@[i as int])));
        assert(mapped@.map_values(|m: ChatMessage| message_view(m)) =~= incoming@.take(
            i + 1,
        ).map_values(|h: HistoryLine| history_view(h)));
        i = i + 1;
    }
    assert(incoming@.take(incoming.len() as int) =~= incoming@);
    let mut same = mapped.len() == messages.len();
    let mut k: usize = 0;
    while same && k < mapped.len()
        invariant
            k <= mapped.len(),
            same ==> mapped.len() == messages.len(),
            same ==> forall|j: int|
                0 <= j < k ==> message_view(mapped@[j]) == message_view(messages@[j]),
            !same ==> mapped@.map_values(|m: ChatMessage| message_view(m)) != messages@.map_values(
                |m: ChatMessage| message_view(m),
            ),
        decreases mapped.len() - k + (if same {
            1int
        } else {
            0int
        }),
    {
        if !(mapped[k].role == messages[k].role && mapped[k].text == messages[k].text) {
            assert(mapped@.map_values(|m: ChatMessage| message_view(m))[k as int]
                != messages@.map_values(|m: ChatMessage| message_view(m))[k as int]);
            same = false;
        } else {
            k = k + 1;
        }
    }
    if same {
        assert(mapped@.map_values(|m: ChatMessage| message_view(m)) =~= messages@.map_values(
            |m: ChatMessage| message_view(m),
        ));
        return false;
    }
    *messages = mapped;
    true
}

/// The text inside the first `<user_query>` tag (to its closing tag or the
/// end), trimmed; the whole text, trimmed, when there is no such tag.
pub open spec fn unwrap_query(t: Seq<char>) -> Seq<char> {
    match first_occ(t, "<user_query>"@) {
        Some(i) => {
            let after = t.skip(i + "<user_query>"@.len());
            let end = match first_occ(after, "</user_query>"@) {
                Some(j) => j,
                None => after.len() as int,
            };
            trim_s(after.take(end))
        },
        None => trim_s(t),
    }
}

fn unwrap_user_query(text: &str) -> (r: String)
    ensures
        r@ == unwrap_query(text@),
{
    let t = chars_of(text);
    let open = chars_of("<user_query>");
    let found = find_first(&t, &open);
    match found {
        Some(i) => {
            let tl = t.len();
            let ol = open.len();
            assert(occurs_at(t@, open@, i as int));
            assert(i + ol <= tl);
            let after = sub_vec(&t, i + ol, tl);
            let ghost a = t@.skip(i + "<user_query>"@.len());
            assert(after@ =~= a);
            let piece = unwrap_tail(&after);
            string_of(&trim_vec(&piece))
        },
        None => string_of(&trim_vec(&t)),
    }
}

/// `after` up to its first closing tag (all of it when there is none).
fn unwrap_tail(after: &Vec<char>) -> (r: Vec<char>)
    ensures
        r@ == after@.take(
            match first_occ(after@, "</user_query>"@) {
                Some(j) => j,
                None => after@.len() as int,
            },
        ),
{
    let close = chars_of("</user_query>");
    let end = match find_first(after, &close) {
        Some(j) => j,
        None => after.len(),
    };
    let piece = sub_vec(after, 0, end);
    assert(piece@ =~= after@.take(end as int));
    piece
}

/// A content block's text: a `{"type":"text","text":...}` object or a bare
/// string, trimmed; nothing when blank.
pub open spec fn block_text(b: Map<Seq<char>, Node>) -> Option<Seq<char>> {
    let t = if get_str_s(b, "type"@) == Some("text"@) {
        get_str_s(b, "text"@)
    } else {
        as_str_s(b)
    };
    match t {
        Some(s) => if trim_s(s).len() > 0 {
            Some(trim_s(s))
        } else {
            None
        },
        None => None,
    }
}

/// The text of a history entry: its string `content` trimmed, or the
/// non-blank text blocks of its `content` array joined by newlines.
pub open spec fn entry_text(m: Map<Seq<char>, Node>) -> Option<Seq<char>> {
    match get_s(m, "content"@) {
        None => None,
        Some(c) => match as_str_s(c) {
            Some(s) => Some(trim_s(s)),
            None => match as_array_s(c) {
                None => None,
                Some(bs) => {
                    let parts = keep_some(bs, |b: Map<Seq<char>, Node>| block_text(b));
                    if parts.len() == 0 {
                        None
                    } else {
                        Some(join_s(parts, "\n"@))
                    }
                },
            },
        },
    }
}

fn block_text_exec(b: &serde_json::Value) -> (r: Option<Vec<char>>)
    ensures
        match r {
            Some(t) => block_text(json_nodes(*b)) == Some(t@),
            None => block_text(json_nodes(*b)) is None,
        },
{
    let is_text = match get_str(b, "type") {
        Some(k) => eq_str(&chars_of(k), "text"),
        None => false,
    };
    let t = if is_text {
        get_str(b, "text")
    } else {
        value_as_str(b)
    };
    match t {
        Some(s) => {
            let tv = trim_vec(&chars_of(s));
            if tv.len() > 0 {
                Some(tv)
            } else {
                None
            }
        },
        None => None,
    }
}

fn extract_text(v: &serde_json::Value) -> (r: Option<String>)
    ensures
        match r {
            Some(t) => entry_text(json_nodes(*v)) == Some(t@),
            None => entry_text(json_nodes(*v)) is None,
        },
{
    let content = match value_get(v, "content") {
        Some(c) => c,
        None => return None,
    };
    match value_as_str(content) {
        Some(s) => return Some(string_of(&trim_vec(&chars_of(s)))),
        None => {},
    }
    let arr = match value_as_array(content) {
        Some(a) => a,
        None => return None,
    };
    let ghost bs = as_array_s(json_nodes(*content))->Some_0;
    let ghost f = |b: Map<Seq<char>, Node>| block_text(b);
    let mut parts: Vec<Vec<char>> = Vec::new();
    let mut k: usize = 0;
    while k < arr.len()
        invariant
            k <= arr@.len(),
            bs.len() == arr@.len(),
            forall|i: int| 0 <= i < bs.len() ==> #[trigger] bs[i] == json_nodes(arr@[i]),
            f == (|b: Map<Seq<char>, Node>| block_text(b)),
            views(parts@) == keep_some(bs.take(k as int), f),
        decreases arr@.len() - k,
    {
        proof {
            lemma_keep_some_step(bs, f, k as int);
        }
        let got = block_text_exec(&arr[k]);
        assert(f(bs[k as int]) == block_text(json_nodes(arr@[k as int])));
        match got {
            Some(t) => {
                proof {
                    lemma_views_push(parts@, t);
                }
                parts.push(t);
                assert(keep_some(bs.take(k + 1), f) =~= keep_some(bs.take(k as int), f).push(t@));
            },
            None => {
                assert(keep_some(bs.take(k + 1), f) =~= keep_some(bs.take(k as int), f));
            },
        }
        k = k + 1;
    }
    assert(bs.take(bs.len() as int) =~= bs);
    if parts.len() == 0 {
        None
    } else {
        Some(string_of(&join_vecs(&parts, &chars_of("\n"))))
    }
}

/// The role an entry's `type` (or else `role`) names.
pub open spec fn entry_role(m: Map<Seq<char>, Node>) -> Option<Role> {
    let kind = match get_str_s(m, "type"@) {
        Some(k) => k,
        None => match get_str_s(m, "role"@) {
            Some(k) => k,
            None => Seq::empty(),
        },
    };
    if kind == "user"@ {
        Some(Role::User)
    } else if kind == "assistant"@ {
        Some(Role::Assistant)
    } else {
        None
    }
}

/// One `chat_history.jsonl` line as a chat line: a JSON object that is no
/// synthetic turn, by the user or the assistant, with non-blank text.
pub open spec fn history_entry(line: Seq<char>) -> Option<(Role, Seq<char>)> {
    let l = trim_s(line);
    if l.len() == 0 {
        None
    } else {
        match json_parse(l) {
            None => None,
            Some(m) => if get_str_s(m, "synthetic_reason"@) is Some {
                None
            } else {
                match (entry_role(m), entry_text(m)) {
                    (Some(r), Some(t)) => if unwrap_query(t).len() > 0 {
                        Some((r, unwrap_query(t)))
                    } else {
                        None
                    },
                    _ => None,
                }
            },
        }
    }
}

fn history_entry_exec(line: &Vec<char>) -> (r: Option<HistoryLine>)
    ensures
        match r {
            Some(h) => history_entry(line@) == Some(history_view(h)),
            None => history_entry(line@) is None,
        },
{
    let l = trim_vec(line);
    if l.len() == 0 {
        return None;
    }
    let ls = string_of(&l);
    let v = match parse_value(ls.as_str()) {
        Some(v) => v,
        None => return None,
    };
    if get_str(&v, "synthetic_reason").is_some() {
        return None;
    }
    let kind: Vec<char> = match get_str(&v, "type") {
        Some(k) => chars_of(k),
        None => match get_str(&v, "role") {
            Some(k) => chars_of(k),
            None => Vec::new(),
        },
    };
    let role = if eq_str(&kind, "user") {
        Role::User
    } else if eq_str(&kind, "assistant") {
        Role::Assistant
    } else {
        return None;
    };
    let text = match extract_text(&v) {
        Some(t) => t,
        None => return None,
    };
    let text = unwrap_user_query(text.as_str());
    if chars_of(text.as_str()).len() == 0 {
        return None;
    }
    Some(HistoryLine { role, text })
}

/// The chat lines of a grok `chat_history.jsonl`: one per line that reads
/// as a user or assistant turn (see `history_entry`), in order.
pub fn parse_chat_history(raw: &str) -> (r: Vec<HistoryLine>)
    ensures
        r@.map_values(|h: HistoryLine| history_view(h)) == keep_some(
            lines_s(raw@),
            |l: Seq<char>| history_entry(l),
        ),
{
    let lines = lines_of(&chars_of(raw));
    let ghost ls = lines_s(raw@);
    let ghost f = |l: Seq<char>| history_entry(l);
    let mut out: Vec<HistoryLine> = Vec::new();
    let mut k: usize = 0;
    while k < lines.len()
        invariant
            k <= lines@.len(),
            views(lines@) == ls,
            f == (|l: Seq<char>| history_entry(l)),
            out@.map_values(|h: HistoryLine| history_view(h)) == keep_some(ls.take(k as int), f),
        decreases lines@.len() - k,
    {
        proof {
            lemma_keep_some_step(ls, f, k as int);
        }
        assert(ls[k as int] == lines@[k as int]@);
        let ghost before = out@;
        match history_entry_exec(&lines[k]) {
            Some(h) => {
                out.push(h);
                assert(out@.map_values(|h: HistoryLine| history_view(h)) =~= before.map_values(
                    |h: HistoryLine| history_view(h),
                ).push(history_view(h)));
                assert(keep_some(ls.take(k + 1), f) =~= keep_some(ls.take(k as int), f).push(history_view(h)));
            },
            None => {
                assert(keep_some(ls.take(k + 1), f) =~= keep_some(ls.take(k as int), f));
            },
        }
        k = k + 1;
    }
    assert(ls.take(ls.len() as int) =~= ls);
    out
}

} // verus!
