//! The escaping scheme: raw text on one side, wire-safe tokens on the other.

use vstd::prelude::*;
use crate::text::{from_chars, to_chars};

verus! {

/// The letter that follows the backslash in the escape sequence of `c`, for
/// the six characters other than the backslash that have one.
pub open spec fn escape_code(c: char) -> Option<char> {
    if c == ' ' {
        Some('_')
    } else if c == '\0' {
        Some('0')
    } else if c == '\n' {
        Some('n')
    } else if c == '\r' {
        Some('r')
    } else if c == '\x1b' {
        Some('e')
    } else if c == '\t' {
        Some('t')
    } else {
        None
    }
}

/// The wire form of one character.
pub open spec fn escape_char(c: char) -> Seq<char> {
    if c == '\\' {
        seq!['\\', '\\']
    } else {
        match escape_code(c) {
            Some(k) => seq!['\\', k],
            None => seq![c],
        }
    }
}

/// The wire forms of the characters of `s`, one after the other.
pub open spec fn escape_each(s: Seq<char>) -> Seq<char>
    decreases s.len(),
{
    if s.len() == 0 {
        Seq::empty()
    } else {
        escape_char(s[0]) + escape_each(s.skip(1))
    }
}

/// The token that stands for the text `s`: the empty text is written `\@`.
pub open spec fn escape_spec(s: Seq<char>) -> Seq<char> {
    if s.len() == 0 {
        seq!['\\', '@']
    } else {
        escape_each(s)
    }
}

/// `s` with every occurrence of the two characters `a`, `b` replaced by
/// `with` (by nothing where `with` is `None`), the occurrences being taken
/// from the left and not overlapping.
pub open spec fn replace_pair(s: Seq<char>, a: char, b: char, with: Option<char>) -> Seq<char>
    decreases s.len(),
{
    if s.len() >= 2 && s[0] == a && s[1] == b {
        (match with {
            Some(c) => seq![c],
            None => Seq::empty(),
        }) + replace_pair(s.skip(2), a, b, with)
    } else if s.len() >= 1 {
        seq![s[0]] + replace_pair(s.skip(1), a, b, with)
    } else {
        Seq::empty()
    }
}

/// The text that a token stands for. The eight escape sequences are
/// replaced one kind after the other, in this order: `\_`, `\0`, `\n`, `\r`,
/// `\e`, `\t`, `\@` and last `\\`.
pub open spec fn unescape_spec(t: Seq<char>) -> Seq<char> {
    let t = replace_pair(t, '\\', '_', Some(' '));
    let t = replace_pair(t, '\\', '0', Some('\0'));
    let t = replace_pair(t, '\\', 'n', Some('\n'));
    let t = replace_pair(t, '\\', 'r', Some('\r'));
    let t = replace_pair(t, '\\', 'e', Some('\x1b'));
    let t = replace_pair(t, '\\', 't', Some('\t'));
    let t = replace_pair(t, '\\', '@', None);
    replace_pair(t, '\\', '\\', Some('\\'))
}

/// A letter that can follow the backslash in an escape sequence other than
/// `\\`.
pub open spec fn is_escape_letter(c: char) -> bool {
    c == '_' || c == '0' || c == 'n' || c == 'r' || c == 'e' || c == 't' || c == '@'
}

/// The text holds no backslash directly followed by one of the letters
/// `_ 0 n r e t @`: read as raw text, no two characters of it look like an
/// escape sequence.
pub open spec fn collision_free(s: Seq<char>) -> bool {
    forall|i: int| 0 < i < s.len() && is_escape_letter(#[trigger] s[i]) ==> s[i - 1] != '\\'
}

/// The place of a character among the six that unescaping restores, in the
/// order in which it restores them; 6 for any other character.
pub closed spec fn rule_of(c: char) -> int {
    if c == ' ' {
        0
    } else if c == '\0' {
        1
    } else if c == '\n' {
        2
    } else if c == '\r' {
        3
    } else if c == '\x1b' {
        4
    } else if c == '\t' {
        5
    } else {
        6
    }
}

/// The letter of the escape sequence that unescaping replaces in pass `k`.
pub closed spec fn rule_letter(k: int) -> char {
    if k == 0 {
        '_'
    } else if k == 1 {
        '0'
    } else if k == 2 {
        'n'
    } else if k == 3 {
        'r'
    } else if k == 4 {
        'e'
    } else if k == 5 {
        't'
    } else {
        '@'
    }
}

/// What pass `k` of unescaping puts in place of its escape sequence.
pub closed spec fn rule_target(k: int) -> Option<char> {
    if k == 0 {
        Some(' ')
    } else if k == 1 {
        Some('\0')
    } else if k == 2 {
        Some('\n')
    } else if k == 3 {
        Some('\r')
    } else if k == 4 {
        Some('\x1b')
    } else if k == 5 {
        Some('\t')
    } else {
        None
    }
}

/// The wire form of a character once the first `k` passes of unescaping
/// have run.
pub closed spec fn escape_char_from(k: int, c: char) -> Seq<char> {
    if c == '\\' {
        seq!['\\', '\\']
    } else if k <= rule_of(c) < 6 {
        seq!['\\', rule_letter(rule_of(c))]
    } else {
        seq![c]
    }
}

/// The escaped text once the first `k` passes of unescaping have run.
pub closed spec fn escape_each_from(k: int, s: Seq<char>) -> Seq<char>
    decreases s.len(),
{
    if s.len() == 0 {
        Seq::empty()
    } else {
        escape_char_from(k, s[0]) + escape_each_from(k, s.skip(1))
    }
}

proof fn lemma_escape_each_from_start(s: Seq<char>)
    ensures
        escape_each_from(0, s) == escape_each(s),
    decreases s.len(),
{
    if s.len() > 0 {
        lemma_escape_each_from_start(s.skip(1));
        assert(escape_char_from(0, s[0]) =~= escape_char(s[0]));
    }
}

proof fn lemma_collision_free_tail(s: Seq<char>)
    requires
        collision_free(s),
        s.len() > 0,
    ensures
        collision_free(s.skip(1)),
{
    let t = s.skip(1);
    assert forall|i: int| 0 < i < t.len() && is_escape_letter(#[trigger] t[i]) implies t[i - 1]
        != '\\' by {
        assert(t[i] == s[i + 1]);
        assert(t[i - 1] == s[i]);
    }
}

/// The escaped text starts with a backslash or with the first raw
/// character.
proof fn lemma_escape_each_from_head(k: int, s: Seq<char>)
    requires
        s.len() > 0,
    ensures
        escape_each_from(k, s).len() > 0,
        escape_each_from(k, s)[0] == '\\' || escape_each_from(k, s)[0] == s[0],
{
    let h = escape_char_from(k, s[0]);
    assert(h.len() > 0);
    assert(escape_each_from(k, s)[0] == h[0]);
}

/// Pass `k` of unescaping undoes rule `k` of escaping and nothing else, on
/// a text without collisions.
proof fn lemma_undo_rule(k: int, s: Seq<char>)
    requires
        0 <= k <= 6,
        collision_free(s),
    ensures
        replace_pair(escape_each_from(k, s), '\\', rule_letter(k), rule_target(k))
            == escape_each_from(k + 1, s),
    decreases s.len(),
{
    if s.len() > 0 {
        let c = s[0];
        let tail = s.skip(1);
        lemma_collision_free_tail(s);
        lemma_undo_rule(k, tail);
        let b = rule_letter(k);
        let w = rule_target(k);
        let t = escape_each_from(k, s);
        let u = escape_each_from(k, tail);
        let h = escape_char_from(k, c);
        assert(t == h + u);
        if c == '\\' {
            assert(t[0] == '\\' && t[1] == '\\');
            assert(t.skip(1) =~= seq!['\\'] + u);
            let t1 = t.skip(1);
            assert(t1.skip(1) =~= u);
            if tail.len() > 0 {
                lemma_escape_each_from_head(k, tail);
                assert(tail[0] == s[1]);
                assert(is_escape_letter(b));
                assert(u[0] != b);
                assert(t1[1] == u[0]);
            } else {
                assert(t1.len() == 1);
            }
            assert(replace_pair(t1, '\\', b, w) == seq![t1[0]] + replace_pair(u, '\\', b, w));
            assert(replace_pair(t, '\\', b, w) == seq![t[0]] + replace_pair(t1, '\\', b, w));
            assert(escape_each_from(k + 1, s) =~= seq!['\\'] + (seq!['\\'] + escape_each_from(
                k + 1,
                tail,
            )));
        } else if k <= rule_of(c) < 6 {
            let j = rule_of(c);
            assert(t[0] == '\\' && t[1] == rule_letter(j));
            if j == k {
                assert(t.skip(2) =~= u);
                assert(w == Some(c));
                assert(escape_char_from(k + 1, c) =~= seq![c]);
            } else {
                assert(rule_letter(j) != b);
                let t1 = t.skip(1);
                assert(t1 =~= seq![rule_letter(j)] + u);
                assert(t1.skip(1) =~= u);
                assert(t1[0] != '\\');
                assert(replace_pair(t1, '\\', b, w) == seq![t1[0]] + replace_pair(
                    u,
                    '\\',
                    b,
                    w,
                ));
                assert(replace_pair(t, '\\', b, w) == seq![t[0]] + replace_pair(t1, '\\', b, w));
                assert(escape_each_from(k + 1, s) =~= seq!['\\'] + (seq![rule_letter(j)]
                    + escape_each_from(k + 1, tail)));
            }
        } else {
            assert(t[0] == c);
            assert(t.skip(1) =~= u);
            assert(escape_char_from(k + 1, c) =~= seq![c]);
        }
    }
}

/// The last pass of unescaping halves the doubled backslashes.
proof fn lemma_undo_backslashes(s: Seq<char>)
    ensures
        replace_pair(escape_each_from(7, s), '\\', '\\', Some('\\')) == s,
    decreases s.len(),
{
    if s.len() > 0 {
        let c = s[0];
        let tail = s.skip(1);
        lemma_undo_backslashes(tail);
        let t = escape_each_from(7, s);
        let u = escape_each_from(7, tail);
        assert(t == escape_char_from(7, c) + u);
        if c == '\\' {
            assert(t[0] == '\\' && t[1] == '\\');
            assert(t.skip(2) =~= u);
        } else {
            assert(t[0] == c);
            assert(t.skip(1) =~= u);
        }
        assert(s =~= seq![c] + tail);
    } else {
        assert(s =~= Seq::<char>::empty());
    }
}

/// Unescaping undoes escaping: for every text in which no backslash is
/// directly followed by one of the letters `_ 0 n r e t @`, unescaping the
/// escaped text gives the text back.
pub proof fn lemma_unescape_escape(s: Seq<char>)
    requires
        collision_free(s),
    ensures
        unescape_spec(escape_spec(s)) == s,
{
    if s.len() == 0 {
        let t = seq!['\\', '@'];
        assert(t.skip(1) =~= seq!['@']);
        assert(t.skip(1).skip(1) =~= Seq::<char>::empty());
        assert(t.skip(2) =~= Seq::<char>::empty());
        assert(forall|b: char, w: Option<char>|
            b != '@' ==> #[trigger] replace_pair(t, '\\', b, w) =~= t) by {
            assert forall|b: char, w: Option<char>| b != '@' implies #[trigger] replace_pair(
                t,
                '\\',
                b,
                w,
            ) =~= t by {
                assert(replace_pair(t.skip(1).skip(1), '\\', b, w) =~= Seq::<char>::empty());
                assert(replace_pair(t.skip(1), '\\', b, w) =~= seq!['@']);
            }
        }
        let e = Seq::<char>::empty();
        assert(replace_pair(t.skip(2), '\\', '@', None) =~= e);
        assert(replace_pair(t, '\\', '@', None) =~= e);
        assert(replace_pair(e, '\\', '\\', Some('\\')) =~= e);
        assert(s =~= e);
    } else {
        lemma_escape_each_from_start(s);
        lemma_undo_rule(0, s);
        lemma_undo_rule(1, s);
        lemma_undo_rule(2, s);
        lemma_undo_rule(3, s);
        lemma_undo_rule(4, s);
        lemma_undo_rule(5, s);
        lemma_undo_rule(6, s);
        lemma_undo_backslashes(s);
    }
}

fn replace_pair_chars(s: &Vec<char>, a: char, b: char, with: Option<char>) -> (out: Vec<char>)
    ensures
        out@ == replace_pair(s@, a, b, with),
{
    let mut out: Vec<char> = Vec::new();
    let mut i: usize = 0;
    assert(s@.skip(0) =~= s@);
    while i < s.len()
        invariant
            i <= s.len(),
            out@ + replace_pair(s@.skip(i as int), a, b, with) == replace_pair(s@, a, b, with),
        decreases s.len() - i,
    {
        let ghost rest = s@.skip(i as int);
        let ghost before = out@;
        if i + 1 < s.len() && s[i] == a && s[i + 1] == b {
            match with {
                Some(c) => {
                    out.push(c);
                },
                None => {},
            }
            assert(rest.skip(2) =~= s@.skip(i + 2));
            i += 2;
        } else {
            out.push(s[i]);
            assert(rest.skip(1) =~= s@.skip(i + 1));
            i += 1;
        }
        assert(out@ + replace_pair(s@.skip(i as int), a, b, with) =~= before + replace_pair(
            rest,
            a,
            b,
            with,
        ));
    }
    assert(out@ + Seq::<char>::empty() =~= out@);
    out
}

/// Unescapes a token received from the wire.
pub fn unescape(input: &str) -> (text: String)
    ensures
        text@ == unescape_spec(input@),
{
    let t = to_chars(input);
    let t = replace_pair_chars(&t, '\\', '_', Some(' '));
    let t = replace_pair_chars(&t, '\\', '0', Some('\0'));
    let t = replace_pair_chars(&t, '\\', 'n', Some('\n'));
    let t = replace_pair_chars(&t, '\\', 'r', Some('\r'));
    let t = replace_pair_chars(&t, '\\', 'e', Some('\x1b'));
    let t = replace_pair_chars(&t, '\\', 't', Some('\t'));
    let t = replace_pair_chars(&t, '\\', '@', None);
    let t = replace_pair_chars(&t, '\\', '\\', Some('\\'));
    from_chars(&t)
}

/// Appends the wire form of one character to `out`.
fn push_escaped(out: &mut Vec<char>, c: char)
    ensures
        final(out)@ == old(out)@ + escape_char(c),
{
    if c == '\\' {
        out.push('\\');
        out.push('\\');
    } else if c == ' ' {
        out.push('\\');
        out.push('_');
    } else if c == '\0' {
        out.push('\\');
        out.push('0');
    } else if c == '\n' {
        out.push('\\');
        out.push('n');
    } else if c == '\r' {
        out.push('\\');
        out.push('r');
    } else if c == '\x1b' {
        out.push('\\');
        out.push('e');
    } else if c == '\t' {
        out.push('\\');
        out.push('t');
    } else {
        out.push(c);
    }
    assert(out@ =~= old(out)@ + escape_char(c));
}

/// The wire token of a text, as characters.
pub fn escape_chars(s: &Vec<char>) -> (out: Vec<char>)
    ensures
        out@ == escape_spec(s@),
{
    let mut out: Vec<char> = Vec::new();
    if s.len() == 0 {
        out.push('\\');
        out.push('@');
        assert(out@ =~= seq!['\\', '@']);
        return out;
    }
    let mut i: usize = 0;
    assert(s@.skip(0) =~= s@);
    while i < s.len()
        invariant
            i <= s.len(),
            out@ + escape_each(s@.skip(i as int)) == escape_each(s@),
        decreases s.len() - i,
    {
        let ghost rest = s@.skip(i as int);
        let ghost before = out@;
        push_escaped(&mut out, s[i]);
        assert(rest.skip(1) =~= s@.skip(i + 1));
        i += 1;
        assert(out@ + escape_each(s@.skip(i as int)) =~= before + escape_each(rest));
    }
    assert(out@ + Seq::<char>::empty() =~= out@);
    out
}

/// Escapes a text into a token fit for the wire.
pub fn escape(input: &str) -> (token: String)
    ensures
        token@ == escape_spec(input@),
{
    let s = to_chars(input);
    let out = escape_chars(&s);
    from_chars(&out)
}

/// No character of `s` at or behind `i` is a backslash.
pub open spec fn no_backslash_from(s: Seq<char>, i: int) -> bool
    decreases s.len() - i,
{
    if 0 <= i < s.len() {
        s[i] != '\\' && no_backslash_from(s, i + 1)
    } else {
        true
    }
}

proof fn lemma_no_backslash(s: Seq<char>, i: int)
    requires
        0 <= i,
        no_backslash_from(s, i),
    ensures
        forall|k: int| i <= k < s.len() ==> #[trigger] s[k] != '\\',
    decreases s.len() - i,
{
    if i < s.len() {
        lemma_no_backslash(s, i + 1);
    }
}

proof fn lemma_replace_pair_absent(s: Seq<char>, b: char, with: Option<char>)
    requires
        forall|k: int| 0 <= k < s.len() ==> #[trigger] s[k] != '\\',
    ensures
        replace_pair(s, '\\', b, with) == s,
    decreases s.len(),
{
    if s.len() >= 1 {
        let tail = s.skip(1);
        assert forall|k: int| 0 <= k < tail.len() implies #[trigger] tail[k] != '\\' by {
            assert(tail[k] == s[k + 1]);
        }
        lemma_replace_pair_absent(tail, b, with);
        assert(s[0] != '\\');
        assert(seq![s[0]] + tail =~= s);
    } else {
        assert(s =~= Seq::<char>::empty());
    }
}

/// A token without a backslash stands for itself.
pub proof fn lemma_unescape_plain(s: Seq<char>)
    requires
        no_backslash_from(s, 0),
    ensures
        unescape_spec(s) == s,
{
    lemma_no_backslash(s, 0);
    lemma_replace_pair_absent(s, '_', Some(' '));
    lemma_replace_pair_absent(s, '0', Some('\0'));
    lemma_replace_pair_absent(s, 'n', Some('\n'));
    lemma_replace_pair_absent(s, 'r', Some('\r'));
    lemma_replace_pair_absent(s, 'e', Some('\x1b'));
    lemma_replace_pair_absent(s, 't', Some('\t'));
    lemma_replace_pair_absent(s, '@', None);
    lemma_replace_pair_absent(s, '\\', Some('\\'));
}

} // verus!
