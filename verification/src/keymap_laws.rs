//! A chord written as its spec string reads back as the same chord.

use vstd::prelude::*;
use crate::keymap::{encode_chord, norm_key, parse_chord, parse_parts, ChordV};
use crate::text::{
    is_ws, lead_ws, lower, lower_s, split_acc, split_s, trail_ws, trim_end_s, trim_s,
    trim_start_s,
};

verus! {

/// A key name that survives being written and read back: non-empty, ASCII
/// lowercase and normal, no `-`, no surrounding whitespace, and not a
/// modifier word.
pub open spec fn plain_key(k: Seq<char>) -> bool {
    &&& k.len() > 0
    &&& !k.contains('-')
    &&& lower_s(k) == k
    &&& norm_key(k) == k
    &&& !is_ws(k[0])
    &&& !is_ws(k.last())
    &&& k != "ctrl"@
    &&& k != "control"@
    &&& k != "shift"@
    &&& k != "alt"@
}

proof fn lemma_trim_keeps(s: Seq<char>)
    requires
        s.len() > 0,
        !is_ws(s[0]),
        !is_ws(s.last()),
    ensures
        trim_s(s) == s,
{
    assert(lead_ws(s, 0) == 0);
    assert(s.skip(0) =~= s);
    assert(trim_start_s(s) == s);
    assert(trail_ws(s, s.len() as int) == s.len());
    assert(s.take(s.len() as int) =~= s);
}

proof fn lemma_split_no_sep(s: Seq<char>, c: char, i: int)
    requires
        0 <= i <= s.len(),
        !s.contains(c),
    ensures
        split_acc(s, c, 0, i) == seq![s],
    decreases s.len() - i,
{
    if i < s.len() {
        assert(s[i] != c) by {
            if s[i] == c {
                assert(s.contains(c));
            }
        }
        lemma_split_no_sep(s, c, i + 1);
    } else {
        assert(s.subrange(0, s.len() as int) =~= s);
    }
}

/// Splitting `x` from an offset is splitting its tail.
proof fn lemma_split_shift(x: Seq<char>, c: char, off: int, a: int, b: int)
    requires
        0 <= off <= x.len(),
        0 <= a <= b <= x.len() - off,
    ensures
        split_acc(x, c, off + a, off + b) == split_acc(x.skip(off), c, a, b),
    decreases x.len() - off - b,
{
    let r = x.skip(off);
    if b >= r.len() {
        assert(x.subrange(off + a, x.len() as int) =~= r.subrange(a, r.len() as int));
    } else {
        assert(x[off + b] == r[b]);
        if r[b] == c {
            assert(x.subrange(off + a, off + b) =~= r.subrange(a, b));
            lemma_split_shift(x, c, off, b + 1, b + 1);
        } else {
            lemma_split_shift(x, c, off, a, b + 1);
        }
    }
}

/// `p` then the separator then `r` splits into `p` and the pieces of `r`.
proof fn lemma_split_head(p: Seq<char>, c: char, r: Seq<char>)
    requires
        !p.contains(c),
    ensures
        split_s(p + seq![c] + r, c) == seq![p] + split_s(r, c),
{
    let s = p + seq![c] + r;
    lemma_split_prefix_run(s, p, c, 0);
    assert(s[p.len() as int] == c);
    assert(s.subrange(0, p.len() as int) =~= p);
    lemma_split_shift(s, c, (p.len() + 1) as int, 0, 0);
    assert(s.skip((p.len() + 1) as int) =~= r);
}

proof fn lemma_split_prefix_run(s: Seq<char>, p: Seq<char>, c: char, i: int)
    requires
        0 <= i <= p.len(),
        p.len() < s.len(),
        s.take(p.len() as int) == p,
        !p.contains(c),
    ensures
        split_acc(s, c, 0, i) == split_acc(s, c, 0, p.len() as int),
    decreases p.len() - i,
{
    if i < p.len() {
        assert(s[i] == p[i]);
        assert(p[i] != c) by {
            if p[i] == c {
                assert(p.contains(c));
            }
        }
        lemma_split_prefix_run(s, p, c, i + 1);
    }
}

proof fn lemma_lower_keeps_words()
    ensures
        lower_s("ctrl-"@) == "ctrl-"@,
        lower_s("shift-"@) == "shift-"@,
        lower_s("alt-"@) == "alt-"@,
{
    reveal_strlit("ctrl-");
    reveal_strlit("shift-");
    reveal_strlit("alt-");
    assert(lower_s("ctrl-"@) =~= "ctrl-"@);
    assert(lower_s("shift-"@) =~= "shift-"@);
    assert(lower_s("alt-"@) =~= "alt-"@);
}

proof fn lemma_lower_concat(a: Seq<char>, b: Seq<char>)
    ensures
        lower_s(a + b) == lower_s(a) + lower_s(b),
{
    assert(lower_s(a + b) =~= lower_s(a) + lower_s(b));
}

/// Writing a chord whose key is plain and reading the text back gives the
/// same chord.
pub proof fn law_chord_encode_then_parse(c: ChordV)
    requires
        plain_key(c.key),
    ensures
        parse_chord(encode_chord(c)) == Some(c),
{
    reveal_strlit("ctrl-");
    reveal_strlit("shift-");
    reveal_strlit("alt-");
    reveal_strlit("ctrl");
    reveal_strlit("control");
    reveal_strlit("shift");
    reveal_strlit("alt");
    let m1: Seq<char> = if c.ctrl { "ctrl-"@ } else { Seq::empty() };
    let m2: Seq<char> = if c.shift { "shift-"@ } else { Seq::empty() };
    let m3: Seq<char> = if c.alt { "alt-"@ } else { Seq::empty() };
    let k = c.key;
    let e = encode_chord(c);
    assert(e == m1 + m2 + m3 + k);
    // the text is already lowercase and trimmed
    lemma_lower_keeps_words();
    assert(lower_s(Seq::<char>::empty()) =~= Seq::<char>::empty());
    lemma_lower_concat(m1, m2);
    lemma_lower_concat(m1 + m2, m3);
    lemma_lower_concat(m1 + m2 + m3, k);
    assert(lower_s(e) == e);
    assert(e.last() == k.last());
    assert(e.len() > 0);
    assert(!is_ws(e[0])) by {
        if c.ctrl {
            assert(e[0] == 'c');
        } else if c.shift {
            assert(e[0] == 's');
        } else if c.alt {
            assert(e[0] == 'a');
        } else {
            assert(e =~= k);
        }
    }
    lemma_trim_keeps(e);
    assert(parse_chord(e) == parse_parts(split_s(e, '-'), 0, false, false, false, None));
    // the pieces: the modifier words in order, then the key
    let w1: Seq<Seq<char>> = if c.ctrl { seq!["ctrl"@] } else { seq![] };
    let w2: Seq<Seq<char>> = if c.shift { seq!["shift"@] } else { seq![] };
    let w3: Seq<Seq<char>> = if c.alt { seq!["alt"@] } else { seq![] };
    lemma_split_no_sep(k, '-', 0);
    assert(split_s(k, '-') == seq![k]);
    assert("alt"@.len() == 3 && "alt"@[0] == 'a' && "alt"@[1] == 'l' && "alt"@[2] == 't');
    assert(!"alt"@.contains('-'));
    assert("alt-"@ =~= "alt"@ + seq!['-']);
    let t3 = m3 + k;
    if c.alt {
        lemma_split_head("alt"@, '-', k);
        assert(t3 =~= "alt"@ + seq!['-'] + k);
    } else {
        assert(t3 =~= k);
    }
    assert(split_s(t3, '-') == w3 + seq![k]);
    assert("shift"@.len() == 5 && !"shift"@.contains('-')) by {
        assert("shift"@[0] == 's' && "shift"@[1] == 'h' && "shift"@[2] == 'i' && "shift"@[3] == 'f'
            && "shift"@[4] == 't');
    }
    let t2 = m2 + t3;
    if c.shift {
        assert("shift-"@ =~= "shift"@ + seq!['-']);
        lemma_split_head("shift"@, '-', t3);
        assert(t2 =~= "shift"@ + seq!['-'] + t3);
    } else {
        assert(t2 =~= t3);
    }
    assert(split_s(t2, '-') =~= w2 + w3 + seq![k]);
    assert("ctrl"@.len() == 4 && !"ctrl"@.contains('-')) by {
        assert("ctrl"@[0] == 'c' && "ctrl"@[1] == 't' && "ctrl"@[2] == 'r' && "ctrl"@[3] == 'l');
    }
    if c.ctrl {
        assert("ctrl-"@ =~= "ctrl"@ + seq!['-']);
        lemma_split_head("ctrl"@, '-', t2);
        assert(e =~= "ctrl"@ + seq!['-'] + t2);
    } else {
        assert(e =~= t2);
    }
    let parts = w1 + w2 + w3 + seq![k];
    assert(split_s(e, '-') =~= parts);
    // the modifier words are told apart
    assert("ctrl"@ != "shift"@ && "ctrl"@ != "alt"@ && "shift"@ != "alt"@);
    assert("shift"@ != "control"@ && "alt"@ != "control"@) by {
        assert("control"@.len() == 7);
    }
    assert(norm_key(k) == k);
    let n1 = w1.len() as int;
    let n2 = n1 + w2.len();
    let n3 = n2 + w3.len();
    assert(parts[n3] == k);
    assert(parse_parts(parts, n3 + 1, c.ctrl, c.shift, c.alt, Some(k)) == Some(c));
    assert(parse_parts(parts, n3, c.ctrl, c.shift, c.alt, None) == Some(c));
    if c.alt {
        assert(parts[n2] == "alt"@);
    }
    assert(parse_parts(parts, n2, c.ctrl, c.shift, false, None) == Some(c));
    if c.shift {
        assert(parts[n1] == "shift"@);
    }
    assert(parse_parts(parts, n1, c.ctrl, false, false, None) == Some(c));
    if c.ctrl {
        assert(parts[0] == "ctrl"@);
    }
    assert(parse_parts(parts, 0, false, false, false, None) == Some(c));
}

} // verus!
