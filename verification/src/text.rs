//! Text operations with their meaning stated over character sequences.

use vstd::prelude::*;
use vstd::string::*;

verus! {

/// First index of `c` in `s`, if any.
pub open spec fn first_index_of(s: Seq<char>, c: char) -> Option<int> {
    if exists|i: int| 0 <= i < s.len() && s[i] == c {
        Some(choose|i: int| 0 <= i < s.len() && s[i] == c && forall|j: int| 0 <= j < i ==> s[j] != c)
    } else {
        None
    }
}

/// `t` occurs in `s` at position `i`.
pub open spec fn occurs_at(s: Seq<char>, t: Seq<char>, i: int) -> bool {
    0 <= i && i + t.len() <= s.len() && s.subrange(i, i + t.len()) == t
}

/// `t` occurs somewhere in `s`.
pub open spec fn has_infix(s: Seq<char>, t: Seq<char>) -> bool {
    exists|i: int| occurs_at(s, t, i)
}

/// `p` is a prefix of `s`.
pub open spec fn has_prefix(s: Seq<char>, p: Seq<char>) -> bool {
    p.len() <= s.len() && s.subrange(0, p.len() as int) == p
}

/// ASCII lower-case of one character; other characters are kept.
pub open spec fn lower_char(c: char) -> char {
    if 'A' <= c && c <= 'Z' {
        ((c as u32) + 32) as char
    } else {
        c
    }
}

/// ASCII lower-case of a text.
pub open spec fn lower(s: Seq<char>) -> Seq<char> {
    s.map_values(|c: char| lower_char(c))
}

/// Text as a vector of its characters.
pub fn chars_of(s: &str) -> (r: Vec<char>)
    ensures
        r@ == s@,
{
    let n = s.unicode_len();
    let mut out: Vec<char> = Vec::new();
    let mut i: usize = 0;
    while i < n
        invariant
            n == s@.len(),
            i <= n,
            out@ == s@.take(i as int),
        decreases n - i,
    {
        out.push(s.get_char(i));
        i += 1;
        assert(out@ =~= s@.take(i as int));
    }
    assert(s@.take(n as int) =~= s@);
    out
}

/// Whether two texts are equal.
pub fn str_eq(a: &str, b: &str) -> (r: bool)
    ensures
        r == (a@ == b@),
{
    let x = a.to_owned();
    let y = b.to_owned();
    x == y
}

/// Index of the first occurrence of `c`.
pub fn find_char(s: &str, c: char) -> (r: Option<usize>)
    ensures
        match r {
            Some(i) => i < s@.len() && s@[i as int] == c && forall|j: int| 0 <= j < i ==> s@[j] != c,
            None => forall|j: int| 0 <= j < s@.len() ==> s@[j] != c,
        },
        r matches Some(i) ==> first_index_of(s@, c) == Some(i as int),
        r is None ==> first_index_of(s@, c) is None,
{
    let cs = chars_of(s);
    let mut i: usize = 0;
    while i < cs.len()
        invariant
            cs@ == s@,
            i <= cs@.len(),
            forall|j: int| 0 <= j < i ==> s@[j] != c,
        decreases cs@.len() - i,
    {
        if cs[i] == c {
            proof {
                let k = choose|k: int| 0 <= k < s@.len() && s@[k] == c && forall|j: int| 0 <= j < k ==> s@[j] != c;
                if k < i {
                } else if k > i {
                    assert(s@[i as int] == c);
                }
            }
            return Some(i);
        }
        i += 1;
    }
    None
}

/// Characters `from..to` of `s` as an owned text.
pub fn substring(s: &str, from: usize, to: usize) -> (r: String)
    requires
        from <= to <= s@.len(),
    ensures
        r@ == s@.subrange(from as int, to as int),
{
    s.substring_char(from, to).to_owned()
}

/// Whether `p` is a prefix of `s`.
pub fn starts_with(s: &str, p: &str) -> (r: bool)
    ensures
        r == has_prefix(s@, p@),
{
    let a = chars_of(s);
    let b = chars_of(p);
    if b.len() > a.len() {
        return false;
    }
    let mut i: usize = 0;
    while i < b.len()
        invariant
            a@ == s@,
            b@ == p@,
            b@.len() <= a@.len(),
            i <= b@.len(),
            forall|j: int| 0 <= j < i ==> a@[j] == b@[j],
        decreases b@.len() - i,
    {
        if a[i] != b[i] {
            assert(s@.subrange(0, p@.len() as int)[i as int] != p@[i as int]);
            return false;
        }
        i += 1;
    }
    assert(s@.subrange(0, p@.len() as int) =~= p@);
    true
}

fn matches_at(a: &Vec<char>, b: &Vec<char>, i: usize) -> (r: bool)
    requires
        i + b@.len() <= a@.len(),
    ensures
        r == occurs_at(a@, b@, i as int),
{
    let mut k: usize = 0;
    while k < b.len()
        invariant
            i + b@.len() <= a@.len(),
            a@.len() == a.len(),
            k <= b@.len(),
            forall|j: int| 0 <= j < k ==> a@[i + j] == b@[j],
        decreases b@.len() - k,
    {
        if a[i + k] != b[k] {
            assert(a@.subrange(i as int, i + b@.len())[k as int] != b@[k as int]);
            return false;
        }
        k += 1;
    }
    assert(a@.subrange(i as int, i + b@.len()) =~= b@);
    true
}

/// Whether `t` occurs in `s`.
pub fn contains(s: &str, t: &str) -> (r: bool)
    ensures
        r == has_infix(s@, t@),
{
    let a = chars_of(s);
    let b = chars_of(t);
    infix_search(&a, &b)
}

fn infix_search(a: &Vec<char>, b: &Vec<char>) -> (r: bool)
    ensures
        r == has_infix(a@, b@),
{
    if b.len() == 0 {
        assert(a@.subrange(0, 0) =~= b@);
        assert(occurs_at(a@, b@, 0));
        return true;
    }
    let mut i: usize = 0;
    while i < a.len()
        invariant
            b@.len() > 0,
            i <= a@.len(),
            a@.len() == a.len(),
            forall|j: int| 0 <= j < i ==> !occurs_at(a@, b@, j),
        decreases a@.len() - i,
    {
        if b.len() <= a.len() - i {
            if matches_at(a, b, i) {
                assert(occurs_at(a@, b@, i as int));
                return true;
            }
        }
        i += 1;
    }
    assert forall|j: int| !occurs_at(a@, b@, j) by {
        if 0 <= j < i {
        }
    }
    false
}

/// ASCII lower-case copy of a text.
pub fn to_ascii_lower(s: &str) -> (r: Vec<char>)
    ensures
        r@ == lower(s@),
{
    let cs = chars_of(s);
    let mut out: Vec<char> = Vec::new();
    let mut i: usize = 0;
    while i < cs.len()
        invariant
            cs@ == s@,
            i <= cs@.len(),
            out@ == lower(s@).take(i as int),
        decreases cs@.len() - i,
    {
        let c = cs[i];
        let l = if 'A' <= c && c <= 'Z' {
            char_from_upper(c)
        } else {
            c
        };
        out.push(l);
        i += 1;
        assert(out@ =~= lower(s@).take(i as int));
    }
    assert(lower(s@).take(cs@.len() as int) =~= lower(s@));
    out
}

fn char_from_upper(c: char) -> (r: char)
    requires
        'A' <= c <= 'Z',
    ensures
        r == lower_char(c),
{
    let b: u8 = (c as u32) as u8;
    ((b + 32) as u8) as char
}

/// Whether the ASCII lower-case of `s` contains `t` (where `t` is written in lower case).
pub fn contains_ignore_ascii_case(s: &str, t: &str) -> (r: bool)
    ensures
        r == has_infix(lower(s@), t@),
{
    let a = to_ascii_lower(s);
    let b = chars_of(t);
    infix_search(&a, &b)
}

/// Texts joined with a separator between consecutive items.
pub open spec fn join_seq(items: Seq<Seq<char>>, sep: Seq<char>) -> Seq<char>
    decreases items.len(),
{
    if items.len() == 0 {
        Seq::empty()
    } else if items.len() == 1 {
        items[0]
    } else {
        join_seq(items.drop_last(), sep) + sep + items.last()
    }
}

/// Views of a list of texts.
pub open spec fn strings_view(v: Seq<String>) -> Seq<Seq<char>> {
    v.map_values(|s: String| s@)
}

/// Join texts with a separator.
pub fn join(items: &Vec<String>, sep: &str) -> (r: String)
    ensures
        r@ == join_seq(strings_view(items@), sep@),
{
    let mut out = String::new();
    let ghost views = strings_view(items@);
    let mut i: usize = 0;
    while i < items.len()
        invariant
            views == strings_view(items@),
            i <= items@.len(),
            out@ == join_seq(views.take(i as int), sep@),
        decreases items@.len() - i,
    {
        assert(views.take(i + 1).drop_last() =~= views.take(i as int));
        if i > 0 {
            out.append(sep);
        }
        out.append(items[i].as_str());
        i += 1;
    }
    assert(views.take(items@.len() as int) =~= views);
    out
}

/// Owned copy of a text.
pub fn owned(s: &str) -> (r: String)
    ensures
        r@ == s@,
{
    String::from_str(s)
}

/// Lexicographic order of texts by code point.
pub open spec fn text_lt(a: Seq<char>, b: Seq<char>) -> bool
    decreases a.len(),
{
    if a.len() == 0 {
        b.len() > 0
    } else if b.len() == 0 {
        false
    } else if a[0] != b[0] {
        (a[0] as int) < (b[0] as int)
    } else {
        text_lt(a.drop_first(), b.drop_first())
    }
}

pub proof fn lemma_text_lt_irreflexive(a: Seq<char>)
    ensures
        !text_lt(a, a),
    decreases a.len(),
{
    if a.len() > 0 {
        lemma_text_lt_irreflexive(a.drop_first());
    }
}

pub proof fn lemma_text_lt_transitive(a: Seq<char>, b: Seq<char>, c: Seq<char>)
    requires
        text_lt(a, b),
        text_lt(b, c),
    ensures
        text_lt(a, c),
    decreases a.len(),
{
    if a.len() > 0 && b.len() > 0 && c.len() > 0 && a[0] == b[0] && b[0] == c[0] {
        lemma_text_lt_transitive(a.drop_first(), b.drop_first(), c.drop_first());
    }
}

pub proof fn lemma_text_lt_total(a: Seq<char>, b: Seq<char>)
    ensures
        text_lt(a, b) || text_lt(b, a) || a == b,
    decreases a.len(),
{
    if a.len() > 0 && b.len() > 0 {
        if a[0] == b[0] {
            lemma_text_lt_total(a.drop_first(), b.drop_first());
            if a.drop_first() == b.drop_first() {
                assert(a =~= seq![a[0]] + a.drop_first());
                assert(b =~= seq![b[0]] + b.drop_first());
            }
        } else {
            assert((a[0] as int) != (b[0] as int));
        }
    } else if a.len() == 0 && b.len() == 0 {
        assert(a =~= b);
    }
}

/// Whether `a` comes before `b` in code-point order.
pub fn text_less(a: &str, b: &str) -> (r: bool)
    ensures
        r == text_lt(a@, b@),
{
    let x = chars_of(a);
    let y = chars_of(b);
    let mut i: usize = 0;
    assert(a@.skip(0) =~= a@);
    assert(b@.skip(0) =~= b@);
    while i < x.len() && i < y.len()
        invariant
            x@ == a@,
            y@ == b@,
            i <= x@.len(),
            i <= y@.len(),
            text_lt(a@, b@) == text_lt(a@.skip(i as int), b@.skip(i as int)),
        decreases x@.len() - i,
    {
        let c = x[i];
        let d = y[i];
        if c != d {
            assert(a@.skip(i as int)[0] == c);
            assert(b@.skip(i as int)[0] == d);
            return c < d;
        }
        assert(a@.skip(i as int).drop_first() =~= a@.skip(i + 1));
        assert(b@.skip(i as int).drop_first() =~= b@.skip(i + 1));
        i += 1;
    }
    i < y.len()
}

/// Decimal digit of a number below ten.
pub open spec fn digit_char(d: nat) -> char {
    if d == 0 { '0' } else if d == 1 { '1' } else if d == 2 { '2' } else if d == 3 { '3' } else if d == 4 {
        '4'
    } else if d == 5 { '5' } else if d == 6 { '6' } else if d == 7 { '7' } else if d == 8 { '8' } else { '9' }
}

/// Decimal text of a number, without leading zeros.
pub open spec fn decimal(n: nat) -> Seq<char>
    decreases n,
{
    if n < 10 {
        seq![digit_char(n)]
    } else {
        decimal(n / 10) + seq![digit_char(n % 10)]
    }
}

fn digit_text(d: u64) -> (r: &'static str)
    requires
        d < 10,
    ensures
        r@ == seq![digit_char(d as nat)],
{
    match d {
            0 => {
                proof {
                    reveal_strlit("0");
                }
                "0"
            },
            1 => {
                proof {
                    reveal_strlit("1");
                }
                "1"
            },
            2 => {
                proof {
                    reveal_strlit("2");
                }
                "2"
            },
            3 => {
                proof {
                    reveal_strlit("3");
                }
                "3"
            },
            4 => {
                proof {
                    reveal_strlit("4");
                }
                "4"
            },
            5 => {
                proof {
                    reveal_strlit("5");
                }
                "5"
            },
            6 => {
                proof {
                    reveal_strlit("6");
                }
                "6"
            },
            7 => {
                proof {
                    reveal_strlit("7");
                }
                "7"
            },
            8 => {
                proof {
                    reveal_strlit("8");
                }
                "8"
            },
            _ => {
                proof {
                    reveal_strlit("9");
                }
                "9"
            },
    }
}

/// Decimal text of a number.
pub fn decimal_text(n: u64) -> (r: String)
    ensures
        r@ == decimal(n as nat),
    decreases n,
{
    if n < 10 {
        owned(digit_text(n))
    } else {
        let mut s = decimal_text(n / 10);
        s.append(digit_text(n % 10));
        s
    }
}

/// A piece of a separated list as kept: its trimmed text, when that is not empty.
pub open spec fn kept_piece(cur: Seq<char>) -> Seq<Seq<char>> {
    if crate::plans::trimmed(cur).len() > 0 {
        seq![crate::plans::trimmed(cur)]
    } else {
        Seq::empty()
    }
}

/// Kept pieces of `cur + s` split at commas.
pub open spec fn comma_items_from(s: Seq<char>, cur: Seq<char>) -> Seq<Seq<char>>
    decreases s.len(),
{
    if s.len() == 0 {
        kept_piece(cur)
    } else if s[0] == ',' {
        kept_piece(cur) + comma_items_from(s.drop_first(), Seq::empty())
    } else {
        comma_items_from(s.drop_first(), cur.push(s[0]))
    }
}

/// Items of a comma-separated list: each piece between commas, trimmed, empty ones left out.
pub open spec fn comma_items(s: Seq<char>) -> Seq<Seq<char>> {
    comma_items_from(s, Seq::empty())
}

/// No item of a comma-separated list is empty.
pub proof fn law_comma_items_not_empty(s: Seq<char>, cur: Seq<char>)
    ensures
        forall|k: int| 0 <= k < comma_items_from(s, cur).len() ==> (#[trigger] comma_items_from(s, cur)[k]).len() > 0,
    decreases s.len(),
{
    if s.len() > 0 {
        if s[0] == ',' {
            law_comma_items_not_empty(s.drop_first(), Seq::empty());
            let all = comma_items_from(s, cur);
            let tail = comma_items_from(s.drop_first(), Seq::empty());
            assert(all == kept_piece(cur) + tail);
            assert forall|k: int| 0 <= k < all.len() implies (#[trigger] all[k]).len() > 0 by {
                if k >= kept_piece(cur).len() {
                    assert(all[k] == tail[k - kept_piece(cur).len()]);
                }
            }
        } else {
            law_comma_items_not_empty(s.drop_first(), cur.push(s[0]));
            assert(comma_items_from(s, cur) == comma_items_from(s.drop_first(), cur.push(s[0])));
        }
    } else {
        assert(comma_items_from(s, cur) == kept_piece(cur));
    }
}

/// Items of a comma-separated list, trimmed, without empty ones.
pub fn comma_separated(s: &str) -> (r: Vec<String>)
    ensures
        strings_view(r@) == comma_items(s@),
{
    let cs = chars_of(s);
    let n = cs.len();
    let mut out: Vec<String> = Vec::new();
    let mut start: usize = 0;
    let mut i: usize = 0;
    proof {
        assert(s@.subrange(0, s@.len() as int) =~= s@);
        assert(s@.subrange(0, 0) =~= Seq::<char>::empty());
        assert(strings_view(out@) + comma_items(s@) =~= comma_items(s@));
    }
    while i < n
        invariant
            cs@ == s@,
            n == s@.len(),
            start <= i <= n,
            strings_view(out@) + comma_items_from(s@.subrange(i as int, n as int), s@.subrange(start as int, i as int))
                == comma_items(s@),
        decreases n - i,
    {
        let ghost rest = s@.subrange(i as int, n as int);
        let ghost cur = s@.subrange(start as int, i as int);
        proof {
            assert(rest[0] == s@[i as int]);
            assert(rest.drop_first() =~= s@.subrange(i + 1, n as int));
        }
        if cs[i] == ',' {
            let piece = substring(s, start, i);
            let t = crate::plans::trim_text(piece.as_str());
            let ghost before = strings_view(out@);
            if !t.as_str().is_empty() {
                out.push(t);
                proof {
                    assert(strings_view(out@) =~= before + kept_piece(cur));
                }
            } else {
                proof {
                    assert(kept_piece(cur) =~= Seq::<Seq<char>>::empty());
                    assert(strings_view(out@) =~= before + kept_piece(cur));
                }
            }
            proof {
                assert(s@.subrange(i + 1, i + 1) =~= Seq::<char>::empty());
                assert(before + (kept_piece(cur) + comma_items_from(s@.subrange(i + 1, n as int), Seq::empty()))
                    =~= (before + kept_piece(cur)) + comma_items_from(s@.subrange(i + 1, n as int), Seq::empty()));
            }
            start = i + 1;
        } else {
            proof {
                assert(cur.push(s@[i as int]) =~= s@.subrange(start as int, i + 1));
            }
        }
        i += 1;
    }
    let piece = substring(s, start, n);
    let t = crate::plans::trim_text(piece.as_str());
    let ghost before = strings_view(out@);
    let ghost cur = s@.subrange(start as int, n as int);
    proof {
        assert(s@.subrange(n as int, n as int) =~= Seq::<char>::empty());
    }
    if !t.as_str().is_empty() {
        out.push(t);
        proof {
            assert(strings_view(out@) =~= before + kept_piece(cur));
        }
    } else {
        proof {
            assert(kept_piece(cur) =~= Seq::<Seq<char>>::empty());
            assert(strings_view(out@) =~= before + kept_piece(cur));
        }
    }
    out
}

} // verus!
