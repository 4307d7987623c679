//! What holds of the texts that the library writes and reads: blanks, case, numbers and paths.

use crate::text::{
    dec, dec_padded, is_white_space, joined_path, lower, lower_char, non_empty, trimmed,
    trimmed_end, trimmed_start, upper, upper_char,
};
use vstd::prelude::*;

verus! {

/// Whether a text is blank through and through.
pub open spec fn all_white(s: Seq<char>) -> bool {
    forall|i: int| 0 <= i < s.len() ==> is_white_space(#[trigger] s[i])
}

proof fn lemma_trimmed_end(s: Seq<char>)
    ensures
        exists|n: int|
            0 <= n <= s.len() && trimmed_end(s) == #[trigger] s.take(n) && all_white(s.skip(n)),
        trimmed_end(s).len() > 0 ==> !is_white_space(trimmed_end(s).last()),
    decreases s.len(),
{
    if s.len() > 0 && is_white_space(s.last()) {
        lemma_trimmed_end(s.drop_last());
        let d = s.drop_last();
        let n = choose|n: int|
            0 <= n <= d.len() && trimmed_end(d) == #[trigger] d.take(n) && all_white(d.skip(n));
        assert(s.take(n) =~= d.take(n));
        assert forall|i: int| 0 <= i < s.skip(n).len() implies is_white_space(
            #[trigger] s.skip(n)[i],
        ) by {
            if i < d.skip(n).len() {
                assert(s.skip(n)[i] == d.skip(n)[i]);
            } else {
                assert(s.skip(n)[i] == s.last());
            }
        }
        assert(all_white(s.skip(n)));
    } else {
        assert(s.take(s.len() as int) =~= s);
        assert(all_white(s.skip(s.len() as int)));
    }
}

proof fn lemma_trimmed_start(s: Seq<char>)
    ensures
        exists|n: int|
            0 <= n <= s.len() && trimmed_start(s) == #[trigger] s.skip(n) && all_white(s.take(n)),
        trimmed_start(s).len() > 0 ==> !is_white_space(trimmed_start(s)[0]),
    decreases s.len(),
{
    if s.len() > 0 && is_white_space(s[0]) {
        let d = s.skip(1);
        lemma_trimmed_start(d);
        let n = choose|n: int|
            0 <= n <= d.len() && trimmed_start(d) == #[trigger] d.skip(n) && all_white(d.take(n));
        assert(s.skip(n + 1) =~= d.skip(n));
        assert forall|i: int| 0 <= i < s.take(n + 1).len() implies is_white_space(
            #[trigger] s.take(n + 1)[i],
        ) by {
            if i > 0 {
                assert(s.take(n + 1)[i] == d.take(n)[i - 1]);
            }
        }
        assert(all_white(s.take(n + 1)));
    } else {
        assert(s.skip(0) =~= s);
        assert(all_white(s.take(0)));
    }
}

/// A trimmed text is the text without the blanks around it: what is cut off at both ends is blank,
/// what stays neither begins nor ends with a blank, and nothing within it changes.
pub proof fn law_only_blanks_around_are_trimmed(s: Seq<char>)
    ensures
        exists|a: int, b: int|
            0 <= a <= b <= s.len() && trimmed(s) == #[trigger] s.subrange(a, b) && all_white(
                s.take(a),
            ) && all_white(s.skip(b)),
        trimmed(s).len() > 0 ==> !is_white_space(trimmed(s)[0]) && !is_white_space(
            trimmed(s).last(),
        ),
{
    lemma_trimmed_start(s);
    let a = choose|n: int|
        0 <= n <= s.len() && trimmed_start(s) == #[trigger] s.skip(n) && all_white(s.take(n));
    let t = s.skip(a);
    lemma_trimmed_end(t);
    let n = choose|n: int|
        0 <= n <= t.len() && trimmed_end(t) == #[trigger] t.take(n) && all_white(t.skip(n));
    assert(s.subrange(a, a + n) =~= t.take(n));
    assert(s.skip(a + n) =~= t.skip(n));
    if n > 0 {
        assert(t.take(n)[0] == t[0]);
    }
}

/// Spaces, tabs and line ends are blanks; letters, digits and the signs of names are not.
pub proof fn law_blanks(c: char)
    ensures
        c == ' ' || c == '\t' || c == '\n' || c == '\r' ==> is_white_space(c),
        '!' <= c && c <= '~' ==> !is_white_space(c),
{
}

/// Case is folded letter by letter: the two forms of a text have its length, differ from it in the
/// case of letters alone, and folding twice is folding once.
pub proof fn law_case_is_folded(s: Seq<char>, t: Seq<char>, c: char)
    ensures
        lower(s).len() == s.len(),
        lower(lower(s)) == lower(s),
        lower(upper(s)) == lower(s),
        upper(lower(s)) == upper(s),
        'A' <= c && c <= 'Z' ==> lower_char(c) as u32 == c as u32 + 32,
        !('A' <= c && c <= 'Z') ==> lower_char(c) == c,
        'a' <= c && c <= 'z' ==> upper_char(c) as u32 == c as u32 - 32,
        !('a' <= c && c <= 'z') ==> upper_char(c) == c,
        lower(s + t) == lower(s) + lower(t),
{
    assert(lower(lower(s)) =~= lower(s)) by {
        assert forall|i: int| 0 <= i < s.len() implies lower_char(lower_char(s[i])) == lower_char(
            s[i],
        ) by {
            lemma_folds(s[i]);
        }
    }
    assert(lower(upper(s)) =~= lower(s)) by {
        assert forall|i: int| 0 <= i < s.len() implies lower_char(upper_char(s[i])) == lower_char(
            s[i],
        ) by {
            lemma_folds(s[i]);
        }
    }
    assert(upper(lower(s)) =~= upper(s)) by {
        assert forall|i: int| 0 <= i < s.len() implies upper_char(lower_char(s[i])) == upper_char(
            s[i],
        ) by {
            lemma_folds(s[i]);
        }
    }
    assert(lower(s + t) =~= lower(s) + lower(t));
    lemma_folds(c);
}

proof fn lemma_folds(c: char)
    ensures
        lower_char(lower_char(c)) == lower_char(c),
        lower_char(upper_char(c)) == lower_char(c),
        upper_char(lower_char(c)) == upper_char(c),
        'A' <= c && c <= 'Z' ==> lower_char(c) as u32 == c as u32 + 32,
        'a' <= c && c <= 'z' ==> upper_char(c) as u32 == c as u32 - 32,
{
    if 'A' <= c && c <= 'Z' {
        assert(((c as u32 + 32) as char) as u32 == c as u32 + 32);
        assert(upper_char(lower_char(c)) as u32 == c as u32);
    }
    if 'a' <= c && c <= 'z' {
        assert(((c as u32 - 32) as char) as u32 == c as u32 - 32);
        assert(lower_char(upper_char(c)) as u32 == c as u32);
    }
}

/// Number that decimal digits stand for.
pub open spec fn decimal_value(s: Seq<char>) -> nat
    decreases s.len(),
{
    if s.len() == 0 {
        0
    } else {
        decimal_value(s.drop_last()) * 10 + ((s.last() as u32 - 48) as nat)
    }
}

/// A number is written in decimal digits that stand for it, without a zero in front; so different
/// numbers are written differently.
pub proof fn law_numbers_are_written_in_decimal(n: nat)
    ensures
        decimal_value(dec(n)) == n,
        dec(n).len() > 0,
        forall|i: int| 0 <= i < dec(n).len() ==> '0' <= #[trigger] dec(n)[i] && dec(n)[i] <= '9',
        n > 0 ==> dec(n)[0] != '0',
    decreases n,
{
    if n >= 10 {
        law_numbers_are_written_in_decimal(n / 10);
        assert(dec(n).drop_last() =~= dec(n / 10));
    } else {
        assert(dec(n).drop_last() =~= Seq::<char>::empty());
        assert(decimal_value(dec(n).drop_last()) == 0);
    }
}

proof fn lemma_zeros(k: nat, d: Seq<char>)
    ensures
        decimal_value(Seq::new(k, |i: int| '0') + d) == decimal_value(d),
    decreases d.len(), k,
{
    let z = Seq::new(k, |i: int| '0');
    if d.len() > 0 {
        lemma_zeros(k, d.drop_last());
        assert((z + d).drop_last() =~= z + d.drop_last());
    } else {
        assert(z + d =~= z);
        if k > 0 {
            lemma_zeros((k - 1) as nat, d);
            assert(z.drop_last() =~= Seq::new((k - 1) as nat, |i: int| '0') + d);
        }
    }
}

/// A padded number stands for the same number, and has at least the width that is asked for.
pub proof fn law_padding_keeps_the_number(n: nat, width: nat)
    ensures
        decimal_value(dec_padded(n, width)) == n,
        dec_padded(n, width).len() >= width,
        dec(n).len() >= width ==> dec_padded(n, width) == dec(n),
        dec(n).len() < width ==> dec_padded(n, width).len() == width,
{
    law_numbers_are_written_in_decimal(n);
    if dec(n).len() < width {
        lemma_zeros((width - dec(n).len()) as nat, dec(n));
    }
}

/// A path stands behind its directory, with one slash between them; an absolute path stands alone.
pub proof fn law_paths_stand_behind_their_directory(dir: Seq<char>, path: Seq<char>)
    ensures
        path.len() > 0 && path[0] == '/' ==> joined_path(dir, path) == path,
        !(path.len() > 0 && path[0] == '/') ==> {
            let j = joined_path(dir, path);
            &&& dir.is_prefix_of(j)
            &&& path.is_suffix_of(j)
            &&& dir.len() > 0 ==> j.len() == dir.len() + path.len() + if dir.last() == '/' {
                0int
            } else {
                1
            }
            &&& dir.len() > 0 ==> j[j.len() - path.len() - 1] == '/'
            &&& dir.len() == 0 ==> j == path
        },
{
    reveal_strlit("/");
    let j = joined_path(dir, path);
    if !(path.len() > 0 && path[0] == '/') {
        assert(j.subrange(0, dir.len() as int) =~= dir);
        assert(j.subrange(j.len() - path.len(), j.len() as int) =~= path);
        if dir.len() == 0 {
            assert(j =~= path);
        }
    }
}

/// A text that is there and empty counts as absent; any other one stays.
pub proof fn law_empty_texts_are_absent(o: Option<Seq<char>>)
    ensures
        non_empty(o) is Some <==> o is Some && o->0.len() > 0,
        non_empty(o) is Some ==> non_empty(o) == o,
{
}

} // verus!
