use vstd::prelude::*;

verus! {

/// Index of the last `'.'` in `s`, or -1 when there is none.
pub open spec fn last_dot(s: Seq<char>) -> int
    decreases s.len(),
{
    if s.len() == 0 {
        -1
    } else if s.last() == '.' {
        s.len() - 1
    } else {
        last_dot(s.drop_last())
    }
}

/// The stem of one entry's bare name: the part before the last dot. A name
/// without a dot, or whose only dot leads it, is its own stem; `.` and `..`
/// have an empty stem.
pub open spec fn stem_of(name: Seq<char>) -> Seq<char> {
    if name == seq!['.'] || name == seq!['.', '.'] {
        Seq::empty()
    } else if last_dot(name) <= 0 {
        name
    } else {
        name.subrange(0, last_dot(name))
    }
}

pub open spec fn is_ascii_alnum(c: char) -> bool {
    ('0' as u32 <= c as u32 && c as u32 <= '9' as u32)
    || ('a' as u32 <= c as u32 && c as u32 <= 'z' as u32)
    || ('A' as u32 <= c as u32 && c as u32 <= 'Z' as u32)
}

/// The extension of a name: from its last dot to the end, provided every
/// character after that dot is an ASCII letter or digit; empty otherwise.
pub open spec fn ext_of(name: Seq<char>) -> Seq<char> {
    let d = last_dot(name);
    if d < 0 {
        Seq::empty()
    } else if forall|j: int| d < j < name.len() ==> is_ascii_alnum(#[trigger] name[j]) {
        name.subrange(d, name.len() as int)
    } else {
        Seq::empty()
    }
}

pub open spec fn digit_char(d: nat) -> char {
    if d == 0 { '0' }
    else if d == 1 { '1' }
    else if d == 2 { '2' }
    else if d == 3 { '3' }
    else if d == 4 { '4' }
    else if d == 5 { '5' }
    else if d == 6 { '6' }
    else if d == 7 { '7' }
    else if d == 8 { '8' }
    else { '9' }
}

/// The decimal digits of `n`, most significant first, without leading zeros.
pub open spec fn decimal(n: nat) -> Seq<char>
    decreases n,
{
    if n < 10 {
        seq![digit_char(n)]
    } else {
        decimal(n / 10) + seq![digit_char(n % 10)]
    }
}

/// `needle` occurs in `hay` starting at position `i`.
pub open spec fn occurs_at(hay: Seq<char>, needle: Seq<char>, i: int) -> bool {
    0 <= i && i + needle.len() <= hay.len() && hay.subrange(i, i + needle.len()) == needle
}

/// `needle` occurs somewhere in `hay`.
pub open spec fn contains(hay: Seq<char>, needle: Seq<char>) -> bool {
    exists|i: int| occurs_at(hay, needle, i)
}

/// How many of `names` contain `needle`.
pub open spec fn count_matches(names: Seq<Seq<char>>, needle: Seq<char>) -> nat
    decreases names.len(),
{
    if names.len() == 0 {
        0
    } else {
        count_matches(names.drop_last(), needle) + if contains(names.last(), needle) {
            1nat
        } else {
            0nat
        }
    }
}

/// The path of the entry `name` inside the directory `dir`: the directory,
/// a `/`, then the name.
pub open spec fn join(dir: Seq<char>, name: Seq<char>) -> Seq<char> {
    dir + seq!['/'] + name
}

/// The name given to a pasted file whose own name is already taken:
/// `stem (n)ext`, where `n` counts the directory's names that contain the stem.
pub open spec fn numbered_name(names: Seq<Seq<char>>, name: Seq<char>) -> Seq<char> {
    stem_of(name) + seq![' ', '('] + decimal(count_matches(names, stem_of(name))) + seq![')']
        + ext_of(name)
}

/// Finds the last dot of `s`.
fn find_last_dot(s: &str) -> (r: Option<usize>)
    ensures
        match r {
            Some(i) => i == last_dot(s@) && 0 <= i < s@.len(),
            None => last_dot(s@) == -1,
        },
{
    let len = s.unicode_len();
    let mut k: usize = len;
    assert(s@.subrange(0, len as int) =~= s@);
    while k > 0
        invariant
            k <= len == s@.len(),
            last_dot(s@) == last_dot(s@.subrange(0, k as int)),
        decreases k,
    {
        let c = s.get_char(k - 1);
        assert(s@.subrange(0, k as int).drop_last() =~= s@.subrange(0, k - 1));
        if c == '.' {
            return Some(k - 1);
        }
        k = k - 1;
    }
    assert(s@.subrange(0, 0) =~= Seq::<char>::empty());
    None
}

fn ascii_alnum(c: char) -> (r: bool)
    ensures
        r == is_ascii_alnum(c),
{
    let u = c as u32;
    (48 <= u && u <= 57) || (97 <= u && u <= 122) || (65 <= u && u <= 90)
}

/// The extension of a name, dot included, when it is made of ASCII letters
/// and digits; the empty string otherwise.
pub fn extension(filename: &str) -> (r: &str)
    ensures
        r@ == ext_of(filename@),
{
    proof {
        reveal_strlit("");
    }
    match find_last_dot(filename) {
        None => "",
        Some(d) => {
            let len = filename.unicode_len();
            let mut j: usize = d + 1;
            while j < len
                invariant
                    d < j <= len,
                    len == filename@.len(),
                    d == last_dot(filename@),
                    forall|m: int| d < m < j ==> is_ascii_alnum(#[trigger] filename@[m]),
                decreases len - j,
            {
                if !ascii_alnum(filename.get_char(j)) {
                    assert(!is_ascii_alnum(filename@[j as int]));
                    assert(!(forall|m: int|
                        last_dot(filename@) < m < filename@.len() ==> is_ascii_alnum(
                            #[trigger] filename@[m],
                        )));
                    assert(ext_of(filename@) =~= Seq::<char>::empty());
                    proof {
                        reveal_strlit("");
                    }
                    return "";
                }
                j = j + 1;
            }
            filename.substring_char(d, len)
        },
    }
}

/// The stem of one entry's bare name, as a new string.
pub fn file_name(name: &str) -> (r: String)
    ensures
        r@ == stem_of(name@),
{
    proof {
        reveal_strlit("");
        reveal_strlit(".");
        reveal_strlit("..");
    }
    let len = name.unicode_len();
    if (len == 1 && name.get_char(0) == '.') || (len == 2 && name.get_char(0) == '.'
        && name.get_char(1) == '.') {
        assert(len == 1 ==> name@ =~= seq!['.']);
        assert(len == 2 ==> name@ =~= seq!['.', '.']);
        return String::from_str("");
    }
    assert(name@ != seq!['.'] && name@ != seq!['.', '.']) by {
        if name@ == seq!['.'] {
            assert(name@[0] == '.');
        }
        if name@ == seq!['.', '.'] {
            assert(name@[0] == '.' && name@[1] == '.');
        }
    }
    match find_last_dot(name) {
        Some(d) => {
            if d == 0 {
                String::from_str(name)
            } else {
                String::from_str(name.substring_char(0, d))
            }
        },
        None => String::from_str(name),
    }
}

fn digit_str(d: usize) -> (r: &'static str)
    requires
        d < 10,
    ensures
        r@ == seq![digit_char(d as nat)],
{
    proof {
        reveal_strlit("0");
        reveal_strlit("1");
        reveal_strlit("2");
        reveal_strlit("3");
        reveal_strlit("4");
        reveal_strlit("5");
        reveal_strlit("6");
        reveal_strlit("7");
        reveal_strlit("8");
        reveal_strlit("9");
    }
    let r = if d == 0 { "0" }
    else if d == 1 { "1" }
    else if d == 2 { "2" }
    else if d == 3 { "3" }
    else if d == 4 { "4" }
    else if d == 5 { "5" }
    else if d == 6 { "6" }
    else if d == 7 { "7" }
    else if d == 8 { "8" }
    else { "9" };
    assert(r@ =~= seq![digit_char(d as nat)]);
    r
}

/// `n` written in decimal.
pub fn decimal_string(n: usize) -> (r: String)
    ensures
        r@ == decimal(n as nat),
    decreases n,
{
    if n < 10 {
        String::from_str(digit_str(n))
    } else {
        let mut s = decimal_string(n / 10);
        s.append(digit_str(n % 10));
        s
    }
}

/// Whether `needle` occurs in `hay`.
pub fn contains_str(hay: &str, needle: &str) -> (r: bool)
    ensures
        r == contains(hay@, needle@),
{
    let h = hay.unicode_len();
    let n = needle.unicode_len();
    if n > h {
        assert forall|i: int| !occurs_at(hay@, needle@, i) by {}
        return false;
    }
    if n == 0 {
        assert(hay@.subrange(0, 0) =~= needle@);
        assert(occurs_at(hay@, needle@, 0));
        return true;
    }
    let mut i: usize = 0;
    while i <= h - n
        invariant
            h == hay@.len(),
            n == needle@.len(),
            1 <= n <= h,
            i <= h - n + 1,
            forall|j: int| 0 <= j < i ==> !occurs_at(hay@, needle@, j),
        decreases h - n + 1 - i,
    {
        let mut k: usize = 0;
        let mut same = true;
        while k < n
            invariant
                h == hay@.len(),
                n == needle@.len(),
                i + n <= h,
                k <= n,
                same ==> forall|m: int| 0 <= m < k ==> hay@[i + m] == needle@[m],
                !same ==> !occurs_at(hay@, needle@, i as int),
            decreases n - k,
        {
            if same && hay.get_char(i + k) != needle.get_char(k) {
                same = false;
                assert(hay@.subrange(i as int, i + n)[k as int] != needle@[k as int]);
            }
            k = k + 1;
        }
        if same {
            assert(hay@.subrange(i as int, i + n) =~= needle@);
            assert(occurs_at(hay@, needle@, i as int));
            return true;
        }
        i = i + 1;
    }
    assert forall|j: int| !occurs_at(hay@, needle@, j) by {
        if 0 <= j && j + n <= h {
            assert(j < i);
        }
    }
    false
}

/// The path of the entry `name` inside the directory `dir`.
pub fn join_path(dir: &str, name: &str) -> (r: String)
    ensures
        r@ == join(dir@, name@),
{
    proof {
        reveal_strlit("/");
    }
    let mut r = String::from_str(dir);
    r.append("/");
    r.append(name);
    r
}


proof fn lemma_last_dot_bounds(s: Seq<char>)
    ensures
        -1 <= last_dot(s) < s.len(),
        last_dot(s) >= 0 ==> s[last_dot(s)] == '.',
    decreases s.len(),
{
    if s.len() > 0 && s.last() != '.' {
        lemma_last_dot_bounds(s.drop_last());
    }
}

/// A numbered name is never the name it was made from.
pub proof fn lemma_numbered_name_differs(names: Seq<Seq<char>>, name: Seq<char>)
    ensures
        numbered_name(names, name) != name,
{
    let st = stem_of(name);
    let x = numbered_name(names, name);
    lemma_last_dot_bounds(name);
    assert(x[st.len() as int] == ' ');
    if name == seq!['.'] || name == seq!['.', '.'] {
        assert(name[0] == '.');
    } else if last_dot(name) <= 0 {
        assert(x.len() > name.len());
    } else {
        assert(name[st.len() as int] == '.');
    }
}

/// Joining one directory with two different names gives two different paths.
pub proof fn lemma_join_injective(dir: Seq<char>, a: Seq<char>, b: Seq<char>)
    ensures
        join(dir, a) == join(dir, b) ==> a == b,
{
    let p = dir + seq!['/'];
    assert(join(dir, a) == p + a);
    assert(join(dir, b) == p + b);
    assert((p + a).subrange(p.len() as int, (p + a).len() as int) =~= a);
    assert((p + b).subrange(p.len() as int, (p + b).len() as int) =~= b);
}

/// Pasting under a numbered name never writes over the file it was named after.
pub proof fn lemma_numbered_paste_spares_source(
    cwd: Seq<char>,
    names: Seq<Seq<char>>,
    name: Seq<char>,
)
    ensures
        join(cwd, numbered_name(names, name)) != join(cwd, name),
{
    lemma_numbered_name_differs(names, name);
    lemma_join_injective(cwd, numbered_name(names, name), name);
}

proof fn lemma_decimal_digits(n: nat)
    ensures
        decimal(n).len() >= 1,
        forall|i: int| 0 <= i < decimal(n).len() ==> #[trigger] decimal(n)[i] != ')',
    decreases n,
{
    if n >= 10 {
        lemma_decimal_digits(n / 10);
        let d = decimal(n / 10);
        assert forall|i: int| 0 <= i < decimal(n).len() implies #[trigger] decimal(n)[i] != ')' by {
            if i < d.len() {
                assert(decimal(n)[i] == d[i]);
            }
        }
    }
}

proof fn lemma_decimal_injective(a: nat, b: nat)
    requires
        decimal(a) == decimal(b),
    ensures
        a == b,
    decreases a,
{
    lemma_decimal_digits(a);
    lemma_decimal_digits(b);
    if a >= 10 && b >= 10 {
        lemma_decimal_digits(a / 10);
        lemma_decimal_digits(b / 10);
        let da = decimal(a);
        assert(da.last() == digit_char(a % 10));
        assert(decimal(b).last() == digit_char(b % 10));
        assert(a % 10 == b % 10);
        assert(da.drop_last() =~= decimal(a / 10));
        assert(decimal(b).drop_last() =~= decimal(b / 10));
        lemma_decimal_injective(a / 10, b / 10);
    } else if a >= 10 {
        lemma_decimal_digits(a / 10);
        assert(decimal(a).len() >= 2);
    } else if b >= 10 {
        lemma_decimal_digits(b / 10);
        assert(decimal(b).len() >= 2);
    } else {
        assert(decimal(a)[0] == digit_char(a));
        assert(decimal(b)[0] == digit_char(b));
    }
}

/// Two numbered names made from one name differ whenever their counters do.
proof fn lemma_numbered_counter_injective(
    names1: Seq<Seq<char>>,
    names2: Seq<Seq<char>>,
    name: Seq<char>,
)
    requires
        count_matches(names1, stem_of(name)) != count_matches(names2, stem_of(name)),
    ensures
        numbered_name(names1, name) != numbered_name(names2, name),
{
    let st = stem_of(name);
    let d1 = decimal(count_matches(names1, st));
    let d2 = decimal(count_matches(names2, st));
    let x1 = numbered_name(names1, name);
    let x2 = numbered_name(names2, name);
    lemma_decimal_digits(count_matches(names1, st));
    lemma_decimal_digits(count_matches(names2, st));
    if x1 == x2 {
        let p: int = st.len() as int + 2;
        let t1 = x1.subrange(p, x1.len() as int);
        let t2 = x2.subrange(p, x2.len() as int);
        assert(t1 =~= d1 + seq![')'] + ext_of(name));
        assert(t2 =~= d2 + seq![')'] + ext_of(name));
        if d1.len() < d2.len() {
            assert(t1[d1.len() as int] == ')');
            assert(t2[d1.len() as int] == d2[d1.len() as int]);
        } else if d2.len() < d1.len() {
            assert(t2[d2.len() as int] == ')');
            assert(t1[d2.len() as int] == d1[d2.len() as int]);
        } else {
            assert(d1 =~= t1.subrange(0, d1.len() as int));
            assert(d2 =~= t2.subrange(0, d2.len() as int));
            lemma_decimal_injective(count_matches(names1, st), count_matches(names2, st));
        }
    }
}

/// The distinct names of `names` that contain `needle`.
pub open spec fn matching(names: Seq<Seq<char>>, needle: Seq<char>) -> Set<Seq<char>> {
    Set::new(|x: Seq<char>| names.contains(x) && contains(x, needle))
}

proof fn lemma_count_is_card(names: Seq<Seq<char>>, needle: Seq<char>)
    requires
        names.no_duplicates(),
    ensures
        matching(names, needle).finite(),
        count_matches(names, needle) == matching(names, needle).len(),
    decreases names.len(),
{
    if names.len() == 0 {
        assert(matching(names, needle) =~= Set::<Seq<char>>::empty());
    } else {
        let rest = names.drop_last();
        let l = names.last();
        assert(rest.no_duplicates());
        lemma_count_is_card(rest, needle);
        assert(!rest.contains(l));
        assert forall|x: Seq<char>| #[trigger] names.contains(x) <==> rest.contains(x) || x == l by {
            if names.contains(x) {
                let i = choose|i: int| 0 <= i < names.len() && names[i] == x;
                if i < rest.len() {
                    assert(rest[i] == x);
                }
            }
            if rest.contains(x) {
                let i = choose|i: int| 0 <= i < rest.len() && rest[i] == x;
                assert(names[i] == x);
            }
            if x == l {
                assert(names[names.len() - 1] == x);
            }
        }
        if contains(l, needle) {
            assert(matching(names, needle) =~= matching(rest, needle).insert(l));
        } else {
            assert(matching(names, needle) =~= matching(rest, needle));
        }
    }
}

/// Pasting the same file again, once the first numbered copy is listed,
/// gives a different numbered name: the counter has grown. This holds when
/// the first numbered name was new, every earlier name is still there, and
/// names within one listing are distinct.
pub proof fn lemma_repeat_paste_new_name(
    names1: Seq<Seq<char>>,
    names2: Seq<Seq<char>>,
    name: Seq<char>,
)
    requires
        names1.no_duplicates(),
        names2.no_duplicates(),
        forall|x: Seq<char>| names1.contains(x) ==> names2.contains(x),
        !names1.contains(numbered_name(names1, name)),
        names2.contains(numbered_name(names1, name)),
    ensures
        numbered_name(names2, name) != numbered_name(names1, name),
        count_matches(names2, stem_of(name)) > count_matches(names1, stem_of(name)),
{
    let st = stem_of(name);
    let first = numbered_name(names1, name);
    lemma_count_is_card(names1, st);
    lemma_count_is_card(names2, st);
    assert(first.subrange(0, st.len() as int) =~= st);
    assert(occurs_at(first, st, 0));
    let grown = matching(names1, st).insert(first);
    assert(grown.subset_of(matching(names2, st)));
    vstd::set_lib::lemma_len_subset(grown, matching(names2, st));
    lemma_numbered_counter_injective(names2, names1, name);
}

} // verus!
