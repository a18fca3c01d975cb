//! Text helpers: the string operations the rest of the library is built from,
//! each with a specification over `Seq<char>`.

use vstd::prelude::*;

verus! {

/// The Unicode `White_Space` property, the set of characters that
/// `str::trim` removes.
pub open spec fn is_white_space(c: char) -> bool {
    let v = c as u32;
    ||| 0x09 <= v <= 0x0d
    ||| v == 0x20
    ||| v == 0x85
    ||| v == 0xa0
    ||| v == 0x1680
    ||| 0x2000 <= v <= 0x200a
    ||| v == 0x2028
    ||| v == 0x2029
    ||| v == 0x202f
    ||| v == 0x205f
    ||| v == 0x3000
}

/// `s` without its leading white space.
pub open spec fn trim_start_spec(s: Seq<char>) -> Seq<char>
    decreases s.len(),
{
    if s.len() > 0 && is_white_space(s[0]) {
        trim_start_spec(s.drop_first())
    } else {
        s
    }
}

/// `s` without its trailing white space.
pub open spec fn trim_end_spec(s: Seq<char>) -> Seq<char>
    decreases s.len(),
{
    if s.len() > 0 && is_white_space(s.last()) {
        trim_end_spec(s.drop_last())
    } else {
        s
    }
}

/// `s` without leading and trailing white space.
pub open spec fn trim_spec(s: Seq<char>) -> Seq<char> {
    trim_end_spec(trim_start_spec(s))
}

/// `s` without any trailing occurrence of `c`.
pub open spec fn trim_end_char_spec(s: Seq<char>, c: char) -> Seq<char>
    decreases s.len(),
{
    if s.len() > 0 && s.last() == c {
        trim_end_char_spec(s.drop_last(), c)
    } else {
        s
    }
}

/// The parts joined, with `sep` between each two neighbours.
pub open spec fn join_spec(parts: Seq<Seq<char>>, sep: Seq<char>) -> Seq<char>
    decreases parts.len(),
{
    if parts.len() == 0 {
        Seq::empty()
    } else if parts.len() == 1 {
        parts[0]
    } else {
        join_spec(parts.drop_last(), sep) + sep + parts.last()
    }
}

/// `s` with `x` added at its end where `x` is not empty.
pub open spec fn push_nonempty(s: Seq<Seq<char>>, x: Seq<char>) -> Seq<Seq<char>> {
    if x.len() > 0 {
        s.push(x)
    } else {
        s
    }
}

/// The strings trimmed, without those left empty.
pub open spec fn normalize_names(names: Seq<Seq<char>>) -> Seq<Seq<char>>
    decreases names.len(),
{
    if names.len() == 0 {
        Seq::empty()
    } else {
        push_nonempty(normalize_names(names.drop_last()), trim_spec(names.last()))
    }
}

/// The names that some string gives once trimmed, blank ones left out.
pub open spec fn name_set(names: Seq<Seq<char>>) -> Set<Seq<char>> {
    Set::new(
        |n: Seq<char>|
            n.len() > 0 && exists|j: int| 0 <= j < names.len() && #[trigger] trim_spec(names[j]) == n,
    )
}

/// The normalized names hold exactly the names of `name_set`.
pub proof fn lemma_normalize_names(names: Seq<Seq<char>>, n: Seq<char>)
    ensures
        normalize_names(names).contains(n) <==> name_set(names).contains(n),
    decreases names.len(),
{
    if names.len() > 0 {
        let prev = names.drop_last();
        let rest = normalize_names(prev);
        let t = trim_spec(names.last());
        lemma_normalize_names(prev, n);
        if rest.contains(n) {
            let j = choose|j: int| 0 <= j < prev.len() && #[trigger] trim_spec(prev[j]) == n;
            assert(trim_spec(names[j]) == n);
            if t.len() > 0 {
                let m = choose|m: int| 0 <= m < rest.len() && rest[m] == n;
                assert(rest.push(t)[m] == n);
            }
        }
        if name_set(names).contains(n) {
            let j = choose|j: int| 0 <= j < names.len() && #[trigger] trim_spec(names[j]) == n;
            if j < prev.len() {
                assert(trim_spec(prev[j]) == n);
                assert(name_set(prev).contains(n));
                let m = choose|m: int| 0 <= m < rest.len() && rest[m] == n;
                if t.len() > 0 {
                    assert(rest.push(t)[m] == n);
                }
            } else {
                assert(rest.push(t)[rest.len() as int] == n);
            }
        }
        if t.len() > 0 && rest.push(t).contains(n) {
            let m = choose|m: int| 0 <= m < rest.len() + 1 && rest.push(t)[m] == n;
            if m < rest.len() {
                assert(rest[m] == n);
            } else {
                assert(trim_spec(names[names.len() - 1]) == n);
            }
        }
    }
}

/// The view of an optional string slice.
pub open spec fn opt_view(o: Option<&str>) -> Option<Seq<char>> {
    match o {
        Some(s) => Some(s@),
        None => None,
    }
}

/// The view of an optional string.
pub open spec fn opt_string_view(o: Option<String>) -> Option<Seq<char>> {
    match o {
        Some(s) => Some(s@),
        None => None,
    }
}

/// The views of a sequence of strings.
pub open spec fn views(strings: Seq<String>) -> Seq<Seq<char>> {
    strings.map_values(|s: String| s@)
}

/// The views of a sequence of string slices.
pub open spec fn str_views(strings: Seq<&str>) -> Seq<Seq<char>> {
    strings.map_values(|s: &str| s@)
}

/// Splitting `s` at `sep`, read left to right: the pieces already closed and
/// the piece being read.
pub open spec fn split_state(s: Seq<char>, sep: char) -> (Seq<Seq<char>>, Seq<char>)
    decreases s.len(),
{
    if s.len() == 0 {
        (Seq::empty(), Seq::empty())
    } else {
        let (done, cur) = split_state(s.drop_last(), sep);
        if s.last() == sep {
            (done.push(cur), Seq::empty())
        } else {
            (done, cur.push(s.last()))
        }
    }
}

/// The pieces of `s` between the occurrences of `sep`, as `str::split` with a
/// `char` gives them: one more piece than there are separators.
pub open spec fn split_spec(s: Seq<char>, sep: char) -> Seq<Seq<char>> {
    let (done, cur) = split_state(s, sep);
    done.push(cur)
}

/// The characters of bytes that are all ASCII.
pub open spec fn ascii_chars(bytes: Seq<u8>) -> Seq<char> {
    bytes.map_values(|b: u8| b as char)
}

/// Lexicographic order of character sequences, by code point: the order of
/// `str`'s `Ord`.
pub open spec fn lex_less(a: Seq<char>, b: Seq<char>) -> bool
    decreases a.len(),
{
    if a.len() == 0 {
        b.len() > 0
    } else if b.len() == 0 {
        false
    } else if (a[0] as u32) < (b[0] as u32) {
        true
    } else if a[0] == b[0] {
        lex_less(a.drop_first(), b.drop_first())
    } else {
        false
    }
}

/// `s` with `x` added before the first element that is not below it, unless
/// that element is `x` itself.
pub open spec fn insert_sorted(s: Seq<Seq<char>>, x: Seq<char>) -> Seq<Seq<char>>
    decreases s.len(),
{
    if s.len() == 0 {
        seq![x]
    } else if x == s[0] {
        s
    } else if lex_less(x, s[0]) {
        seq![x] + s
    } else {
        seq![s[0]] + insert_sorted(s.drop_first(), x)
    }
}

/// Each element strictly below the next.
pub open spec fn strictly_sorted(s: Seq<Seq<char>>) -> bool {
    forall|i: int, j: int| 0 <= i < j < s.len() ==> lex_less(#[trigger] s[i], #[trigger] s[j])
}

/// No sequence is below itself.
pub proof fn lemma_lex_less_irreflexive(a: Seq<char>)
    ensures
        !lex_less(a, a),
    decreases a.len(),
{
    if a.len() > 0 {
        lemma_lex_less_irreflexive(a.drop_first());
    }
}

/// Of two sequences, at most one is below the other.
pub proof fn lemma_lex_less_asymmetric(a: Seq<char>, b: Seq<char>)
    ensures
        lex_less(a, b) ==> !lex_less(b, a),
    decreases a.len(),
{
    if a.len() > 0 && b.len() > 0 && a[0] == b[0] {
        lemma_lex_less_asymmetric(a.drop_first(), b.drop_first());
    }
}

/// Of two different sequences, one is below the other.
pub proof fn lemma_lex_less_total(a: Seq<char>, b: Seq<char>)
    ensures
        a != b ==> lex_less(a, b) || lex_less(b, a),
    decreases a.len(),
{
    if a.len() > 0 && b.len() > 0 && a[0] == b[0] {
        lemma_lex_less_total(a.drop_first(), b.drop_first());
        if a.drop_first() == b.drop_first() {
            assert(a =~= seq![a[0]] + a.drop_first());
            assert(b =~= seq![b[0]] + b.drop_first());
        }
    } else if a.len() == 0 && b.len() == 0 {
        assert(a =~= b);
    } else if a.len() > 0 && b.len() > 0 {
        vstd::utf8::char_u32_cast(a[0], a[0] as u32);
        vstd::utf8::char_u32_cast(b[0], b[0] as u32);
    }
}

/// The order is transitive.
pub proof fn lemma_lex_less_transitive(a: Seq<char>, b: Seq<char>, c: Seq<char>)
    requires
        lex_less(a, b),
        lex_less(b, c),
    ensures
        lex_less(a, c),
    decreases a.len(),
{
    if a.len() > 0 && b.len() > 0 && c.len() > 0 && a[0] == b[0] && b[0] == c[0] {
        lemma_lex_less_transitive(a.drop_first(), b.drop_first(), c.drop_first());
    }
}

/// Inserting into a strictly sorted sequence keeps it strictly sorted, and
/// adds `x` to what it holds.
pub proof fn lemma_insert_sorted(s: Seq<Seq<char>>, x: Seq<char>)
    requires
        strictly_sorted(s),
    ensures
        strictly_sorted(insert_sorted(s, x)),
        forall|y: Seq<char>|
            #[trigger] insert_sorted(s, x).contains(y) <==> (s.contains(y) || y == x),
    decreases s.len(),
{
    if s.len() == 0 {
        assert(insert_sorted(s, x) =~= seq![x]);
        assert(seq![x][0] == x);
    } else if x == s[0] {
    } else if lex_less(x, s[0]) {
        let r = seq![x] + s;
        assert forall|i: int, j: int| 0 <= i < j < r.len() implies lex_less(
            #[trigger] r[i],
            #[trigger] r[j],
        ) by {
            if i == 0 {
                if j > 1 {
                    lemma_lex_less_transitive(x, s[0], s[j - 1]);
                }
            } else {
                assert(r[i] == s[i - 1] && r[j] == s[j - 1]);
            }
        }
        assert forall|y: Seq<char>| r.contains(y) <==> (s.contains(y) || y == x) by {
            if r.contains(y) {
                let k = choose|k: int| 0 <= k < r.len() && r[k] == y;
                if k > 0 {
                    assert(s[k - 1] == y);
                }
            }
            if s.contains(y) {
                let k = choose|k: int| 0 <= k < s.len() && s[k] == y;
                assert(r[k + 1] == y);
            }
            if y == x {
                assert(r[0] == y);
            }
        }
    } else {
        let rest = s.drop_first();
        assert(strictly_sorted(rest)) by {
            assert forall|i: int, j: int| 0 <= i < j < rest.len() implies lex_less(
                #[trigger] rest[i],
                #[trigger] rest[j],
            ) by {
                assert(rest[i] == s[i + 1] && rest[j] == s[j + 1]);
            }
        }
        lemma_insert_sorted(rest, x);
        lemma_lex_less_total(x, s[0]);
        let inner = insert_sorted(rest, x);
        let r = seq![s[0]] + inner;
        assert forall|y: Seq<char>| inner.contains(y) implies lex_less(s[0], y) by {
            if y != x {
                assert(rest.contains(y));
                let k = choose|k: int| 0 <= k < rest.len() && rest[k] == y;
                assert(s[k + 1] == y);
            }
        }
        assert forall|i: int, j: int| 0 <= i < j < r.len() implies lex_less(
            #[trigger] r[i],
            #[trigger] r[j],
        ) by {
            if i == 0 {
                assert(inner[j - 1] == r[j]);
                assert(inner.contains(r[j]));
            } else {
                assert(r[i] == inner[i - 1] && r[j] == inner[j - 1]);
            }
        }
        assert forall|y: Seq<char>| r.contains(y) <==> (s.contains(y) || y == x) by {
            if r.contains(y) {
                let k = choose|k: int| 0 <= k < r.len() && r[k] == y;
                if k > 0 {
                    assert(inner[k - 1] == y);
                    assert(insert_sorted(rest, x).contains(y));
                    if y != x {
                        assert(rest.contains(y));
                        let m = choose|m: int| 0 <= m < rest.len() && rest[m] == y;
                        assert(s[m + 1] == y);
                    }
                } else {
                    assert(s[0] == y);
                }
            }
            if s.contains(y) {
                let k = choose|k: int| 0 <= k < s.len() && s[k] == y;
                if k == 0 {
                    assert(r[0] == y);
                } else {
                    assert(rest[k - 1] == y);
                    assert(rest.contains(y));
                    assert(insert_sorted(rest, x).contains(y));
                    let m = choose|m: int| 0 <= m < inner.len() && inner[m] == y;
                    assert(r[m + 1] == y);
                }
            }
            if y == x {
                assert(insert_sorted(rest, x).contains(y));
                let m = choose|m: int| 0 <= m < inner.len() && inner[m] == y;
                assert(r[m + 1] == y);
            }
        }
    }
}

/// Whether `a` is below `b` in the order of `str`.
pub fn str_less(a: &str, b: &str) -> (res: bool)
    ensures
        res == lex_less(a@, b@),
{
    let n: usize = a.unicode_len();
    let m: usize = b.unicode_len();
    let mut i: usize = 0;
    assert(a@.skip(0) =~= a@);
    assert(b@.skip(0) =~= b@);
    loop
        invariant
            n == a@.len(),
            m == b@.len(),
            i <= n,
            i <= m,
            lex_less(a@, b@) == lex_less(a@.skip(i as int), b@.skip(i as int)),
        decreases n - i,
    {
        if i == n {
            return i < m;
        }
        if i == m {
            return false;
        }
        let ca: char = a.get_char(i);
        let cb: char = b.get_char(i);
        let ua: u32 = ca as u32;
        let ub: u32 = cb as u32;
        if ua < ub {
            return true;
        }
        if ua != ub {
            return false;
        }
        assert(a@.skip(i as int).drop_first() =~= a@.skip(i + 1));
        assert(b@.skip(i as int).drop_first() =~= b@.skip(i + 1));
        i = i + 1;
    }
}

/// `insert_sorted`, with `s` cut at `j` while every element before `j` is
/// below `x`.
proof fn lemma_insert_sorted_prefix(s: Seq<Seq<char>>, x: Seq<char>, j: int)
    requires
        0 <= j <= s.len(),
        forall|k: int| 0 <= k < j ==> lex_less(#[trigger] s[k], x),
    ensures
        insert_sorted(s, x) == s.take(j) + insert_sorted(s.skip(j), x),
    decreases j,
{
    if j == 0 {
        assert(s.skip(0) =~= s);
        assert(s.take(0) + insert_sorted(s, x) =~= insert_sorted(s, x));
    } else {
        lemma_insert_sorted_prefix(s, x, j - 1);
        let t = s.skip(j - 1);
        lemma_lex_less_irreflexive(x);
        lemma_lex_less_asymmetric(s[j - 1], x);
        assert(t[0] == s[j - 1]);
        assert(t.drop_first() =~= s.skip(j));
        assert(insert_sorted(t, x) == seq![t[0]] + insert_sorted(s.skip(j), x));
        assert(s.take(j - 1) + (seq![s[j - 1]] + insert_sorted(s.skip(j), x)) =~= s.take(j)
            + insert_sorted(s.skip(j), x));
    }
}

/// `names` with `x` inserted in order, unless it is already there.
pub fn insert_sorted_str<'a>(names: Vec<&'a str>, x: &'a str) -> (res: Vec<&'a str>)
    ensures
        str_views(res@) == insert_sorted(str_views(names@), x@),
{
    let ghost s = str_views(names@);
    let mut j: usize = 0;
    while j < names.len() && str_less(names[j], x)
        invariant
            j <= names@.len(),
            s == str_views(names@),
            forall|k: int| 0 <= k < j ==> lex_less(#[trigger] s[k], x@),
        decreases names@.len() - j,
    {
        j = j + 1;
    }
    proof {
        lemma_insert_sorted_prefix(s, x@, j as int);
    }
    if j < names.len() && str_eq(names[j], x) {
        assert(s.skip(j as int)[0] == x@);
        assert(s.take(j as int) + s.skip(j as int) =~= s);
        names
    } else {
        let ghost rest = s.skip(j as int);
        proof {
            if j < names.len() {
                lemma_lex_less_total(x@, s[j as int]);
                assert(rest[0] == s[j as int]);
                assert(insert_sorted(rest, x@) == seq![x@] + rest);
            } else {
                assert(rest =~= Seq::<Seq<char>>::empty());
            }
        }
        let mut res = names;
        res.insert(j, x);
        assert(str_views(res@) =~= s.take(j as int) + (seq![x@] + rest));
        res
    }
}

/// Appends one character to a `String`, through `String::push`.
#[verifier::external_body]
pub(crate) fn push_char(s: &mut String, c: char)
    ensures
        final(s)@ == old(s)@.push(c),
{
    s.push(c)
}

/// Removes leading and trailing white space, through `str::trim`, which std
/// documents as removing the characters of the Unicode `White_Space` property.
#[verifier::external_body]
pub(crate) fn trim(s: &str) -> (res: &str)
    ensures
        res@ == trim_spec(s@),
{
    s.trim()
}

/// Whether two strings hold the same characters.
pub fn str_eq(a: &str, b: &str) -> (res: bool)
    ensures
        res == (a@ == b@),
{
    let a_owned: String = a.to_owned();
    let b_owned: String = b.to_owned();
    a_owned == b_owned
}

/// `a` followed by `b`.
pub fn concat(a: &str, b: &str) -> (res: String)
    ensures
        res@ == a@ + b@,
{
    let mut res: String = a.to_owned();
    res.append(b);
    res
}

/// Whether `s` begins with `c`.
pub fn starts_with_char(s: &str, c: char) -> (res: bool)
    ensures
        res == (s@.len() > 0 && s@[0] == c),
{
    let n: usize = s.unicode_len();
    n > 0 && s.get_char(0) == c
}

/// `s` with every trailing `c` removed, as `str::trim_end_matches` with a
/// `char` pattern.
pub fn trim_end_char(s: &str, c: char) -> (res: String)
    ensures
        res@ == trim_end_char_spec(s@, c),
{
    let n: usize = s.unicode_len();
    let mut k: usize = n;
    assert(s@.subrange(0, n as int) =~= s@);
    while k > 0 && s.get_char(k - 1) == c
        invariant
            k <= n,
            n == s@.len(),
            trim_end_char_spec(s@, c) == trim_end_char_spec(s@.subrange(0, k as int), c),
        decreases k,
    {
        let ghost t = s@.subrange(0, k as int);
        assert(t.drop_last() =~= s@.subrange(0, k - 1));
        k = k - 1;
    }
    let ghost t = s@.subrange(0, k as int);
    assert(k > 0 ==> t.last() != c);
    let res = s.substring_char(0, k);
    res.to_owned()
}

/// The pieces of `s` between the occurrences of `sep`.
pub fn split_char(s: &str, sep: char) -> (res: Vec<String>)
    ensures
        views(res@) == split_spec(s@, sep),
{
    let n: usize = s.unicode_len();
    let mut done: Vec<String> = Vec::new();
    let mut cur: String = String::new();
    let mut i: usize = 0;
    while i < n
        invariant
            i <= n,
            n == s@.len(),
            (views(done@), cur@) == split_state(s@.subrange(0, i as int), sep),
        decreases n - i,
    {
        let c = s.get_char(i);
        let ghost prefix = s@.subrange(0, i + 1);
        assert(prefix.drop_last() =~= s@.subrange(0, i as int));
        if c == sep {
            let piece = cur;
            done.push(piece);
            cur = String::new();
            assert(views(done@) =~= split_state(s@.subrange(0, i as int), sep).0.push(piece@));
        } else {
            push_char(&mut cur, c);
        }
        i = i + 1;
    }
    assert(s@.subrange(0, n as int) =~= s@);
    let ghost before = views(done@);
    done.push(cur);
    assert(views(done@) =~= before.push(cur@));
    done
}

/// The parts joined with `sep` between each two neighbours, as
/// `[String]::join`.
pub fn join(parts: &Vec<String>, sep: &str) -> (res: String)
    ensures
        res@ == join_spec(views(parts@), sep@),
{
    let mut res: String = String::new();
    let mut i: usize = 0;
    while i < parts.len()
        invariant
            i <= parts@.len(),
            res@ == join_spec(views(parts@).take(i as int), sep@),
        decreases parts@.len() - i,
    {
        let ghost taken = views(parts@).take(i + 1);
        assert(taken.drop_last() =~= views(parts@).take(i as int));
        if i > 0 {
            res.append(sep);
        } else {
            assert(views(parts@).take(0) =~= Seq::<Seq<char>>::empty());
        }
        res.append(parts[i].as_str());
        i = i + 1;
    }
    assert(views(parts@).take(parts@.len() as int) =~= views(parts@));
    res
}

/// The parts joined with `sep` between each two neighbours, as
/// `[&str]::join`.
pub fn join_strs(parts: &Vec<&str>, sep: &str) -> (res: String)
    ensures
        res@ == join_spec(str_views(parts@), sep@),
{
    let mut res: String = String::new();
    let mut i: usize = 0;
    while i < parts.len()
        invariant
            i <= parts@.len(),
            res@ == join_spec(str_views(parts@).take(i as int), sep@),
        decreases parts@.len() - i,
    {
        let ghost taken = str_views(parts@).take(i + 1);
        assert(taken.drop_last() =~= str_views(parts@).take(i as int));
        if i > 0 {
            res.append(sep);
        } else {
            assert(str_views(parts@).take(0) =~= Seq::<Seq<char>>::empty());
        }
        res.append(parts[i]);
        i = i + 1;
    }
    assert(str_views(parts@).take(parts@.len() as int) =~= str_views(parts@));
    res
}

/// The strings trimmed, without those left empty.
pub fn normalize(items: &Vec<String>) -> (res: Vec<String>)
    ensures
        views(res@) == normalize_names(views(items@)),
{
    let ghost given = views(items@);
    let mut res: Vec<String> = Vec::new();
    let mut i: usize = 0;
    while i < items.len()
        invariant
            i <= items@.len(),
            given == views(items@),
            views(res@) == normalize_names(given.take(i as int)),
        decreases items@.len() - i,
    {
        let t: &str = trim(items[i].as_str());
        let ghost before = views(res@);
        assert(given.take(i + 1).drop_last() =~= given.take(i as int));
        assert(given.take(i + 1).last() == items@[i as int]@);
        if !t.is_empty() {
            res.push(t.to_owned());
            assert(views(res@) =~= before.push(t@));
        }
        i = i + 1;
    }
    assert(given.take(items@.len() as int) =~= given);
    res
}

/// The characters of ASCII bytes.
pub fn ascii_to_string(bytes: &[u8]) -> (res: String)
    requires
        forall|i: int| 0 <= i < bytes@.len() ==> bytes@[i] < 128,
    ensures
        res@ == ascii_chars(bytes@),
{
    let mut res: String = String::new();
    let mut i: usize = 0;
    while i < bytes.len()
        invariant
            i <= bytes@.len(),
            forall|j: int| 0 <= j < bytes@.len() ==> bytes@[j] < 128,
            res@ == ascii_chars(bytes@.subrange(0, i as int)),
        decreases bytes@.len() - i,
    {
        let b: u8 = bytes[i];
        let c: char = b as char;
        push_char(&mut res, c);
        assert(ascii_chars(bytes@.subrange(0, i + 1)) =~= ascii_chars(
            bytes@.subrange(0, i as int),
        ).push(c));
        i = i + 1;
    }
    assert(bytes@.subrange(0, bytes@.len() as int) =~= bytes@);
    res
}

} // verus!
