use vstd::prelude::*;

verus! {

// ---------------------------------------------------------------------------
// Character-sequence helpers shared by the protocol and path parsers.
//
// The parsers in this crate work over `Vec<char>` obtained from `&str`, so
// that every step has a direct `Seq<char>` model.
// ---------------------------------------------------------------------------

/// Some position of `s` holds the character `c`.
pub open spec fn seq_has(s: Seq<char>, c: char) -> bool {
    exists|i: int| 0 <= i < s.len() && s[i] == c
}

/// Some position of `s` (at `from` or later) holds the character `c`.
pub open spec fn seq_has_from(s: Seq<char>, c: char, from: int) -> bool {
    exists|i: int| from <= i < s.len() && s[i] == c
}

/// Two adjacent positions of `s` hold `c` twice.
pub open spec fn seq_has_pair(s: Seq<char>, c: char) -> bool {
    exists|i: int| 0 <= i && i + 1 < s.len() && #[trigger] s[i] == c && s[i + 1] == c
}

pub fn has_char(v: &Vec<char>, c: char) -> (r: bool)
    ensures
        r == seq_has(v@, c),
{
    let mut i: usize = 0;
    while i < v.len()
        invariant
            0 <= i <= v@.len(),
            forall|j: int| 0 <= j < i ==> v@[j] != c,
        decreases v@.len() - i,
    {
        if v[i] == c {
            return true;
        }
        i += 1;
    }
    false
}

pub fn has_pair(v: &Vec<char>, c: char) -> (r: bool)
    ensures
        r == seq_has_pair(v@, c),
{
    let mut i: usize = 0;
    while i < v.len()
        invariant
            0 <= i <= v@.len(),
            forall|j: int|
                0 <= j && j + 1 < v@.len() && j < i ==> !(#[trigger] v@[j] == c && v@[j + 1]
                    == c),
        decreases v@.len() - i,
    {
        if i + 1 < v.len() && v[i] == c && v[i + 1] == c {
            return true;
        }
        i += 1;
    }
    false
}

/// First position of `c` in `s` at `from` or later.
pub fn find_from(v: &Vec<char>, c: char, from: usize) -> (r: Option<usize>)
    requires
        from <= v@.len(),
    ensures
        match r {
            Some(i) => from <= i < v@.len() && v@[i as int] == c && forall|j: int|
                from <= j < i ==> v@[j] != c,
            None => !seq_has_from(v@, c, from as int),
        },
{
    let mut i: usize = from;
    while i < v.len()
        invariant
            from <= i <= v@.len(),
            forall|j: int| from <= j < i ==> v@[j] != c,
        decreases v@.len() - i,
    {
        if v[i] == c {
            return Some(i);
        }
        i += 1;
    }
    None
}

/// First position of `c` in `s` at `from` or later, `-1` if there is none.
pub open spec fn spec_find_from(s: Seq<char>, c: char, from: int) -> int
    decreases s.len() - from,
{
    if from < 0 || from >= s.len() {
        -1
    } else if s[from] == c {
        from
    } else {
        spec_find_from(s, c, from + 1)
    }
}

pub proof fn lemma_spec_find_from(s: Seq<char>, c: char, from: int)
    requires
        0 <= from <= s.len(),
    ensures
        spec_find_from(s, c, from) == -1 ==> !seq_has_from(s, c, from),
        spec_find_from(s, c, from) != -1 ==> {
            let i = spec_find_from(s, c, from);
            &&& from <= i < s.len()
            &&& s[i] == c
            &&& forall|j: int| from <= j < i ==> s[j] != c
        },
    decreases s.len() - from,
{
    if from < s.len() && s[from] != c {
        lemma_spec_find_from(s, c, from + 1);
    }
}

/// If `k` is the first position of `c` at `from` or later, the scan finds it.
pub proof fn lemma_find_first_at(s: Seq<char>, c: char, from: int, k: int)
    requires
        0 <= from <= k < s.len(),
        s[k] == c,
        forall|j: int| from <= j < k ==> s[j] != c,
    ensures
        spec_find_from(s, c, from) == k,
    decreases k - from,
{
    if from < k {
        lemma_find_first_at(s, c, from + 1, k);
    }
}

/// Copy of `v[a..b]`.
pub fn subvec(v: &Vec<char>, a: usize, b: usize) -> (r: Vec<char>)
    requires
        a <= b <= v@.len(),
    ensures
        r@ == v@.subrange(a as int, b as int),
{
    let mut r: Vec<char> = Vec::new();
    let mut i: usize = a;
    while i < b
        invariant
            a <= i <= b <= v@.len(),
            r@ == v@.subrange(a as int, i as int),
        decreases b - i,
    {
        r.push(v[i]);
        proof {
            assert(r@ =~= v@.subrange(a as int, i + 1 as int));
        }
        i += 1;
    }
    r
}

pub fn append_vec(dst: &mut Vec<char>, src: &Vec<char>)
    ensures
        final(dst)@ == old(dst)@ + src@,
{
    let mut i: usize = 0;
    while i < src.len()
        invariant
            0 <= i <= src@.len(),
            dst@ == old(dst)@ + src@.subrange(0, i as int),
        decreases src@.len() - i,
    {
        dst.push(src[i]);
        proof {
            assert(dst@ =~= old(dst)@ + src@.subrange(0, i + 1 as int));
        }
        i += 1;
    }
    proof {
        assert(dst@ =~= old(dst)@ + src@);
    }
}

pub fn vec_eq(a: &Vec<char>, b: &Vec<char>) -> (r: bool)
    ensures
        r == (a@ == b@),
{
    if a.len() != b.len() {
        proof {
            assert(a@ != b@);
        }
        return false;
    }
    let mut i: usize = 0;
    while i < a.len()
        invariant
            a@.len() == b@.len(),
            0 <= i <= a@.len(),
            forall|j: int| 0 <= j < i ==> a@[j] == b@[j],
        decreases a@.len() - i,
    {
        if a[i] != b[i] {
            proof {
                assert(a@ != b@);
            }
            return false;
        }
        i += 1;
    }
    proof {
        assert(a@ =~= b@);
    }
    true
}

/// Build a `String` with exactly the characters of `v`.
pub fn string_of(v: &Vec<char>) -> (r: String)
    ensures
        r@ == v@,
{
    let mut r = String::new();
    let mut i: usize = 0;
    while i < v.len()
        invariant
            0 <= i <= v@.len(),
            r@ == v@.subrange(0, i as int),
        decreases v@.len() - i,
    {
        r.push(v[i]);
        proof {
            assert(r@ =~= v@.subrange(0, i + 1 as int));
        }
        i += 1;
    }
    proof {
        assert(r@ =~= v@);
    }
    r
}

// ---------------------------------------------------------------------------
// Trimming of surrounding blanks, as the range parser needs it.
// ---------------------------------------------------------------------------

pub open spec fn is_blank(c: char) -> bool {
    c == ' ' || c == '\t' || c == '\n' || c == '\r'
}

pub open spec fn spec_trim_start(s: Seq<char>) -> Seq<char>
    decreases s.len(),
{
    if s.len() > 0 && is_blank(s[0]) {
        spec_trim_start(s.drop_first())
    } else {
        s
    }
}

pub open spec fn spec_trim_end(s: Seq<char>) -> Seq<char>
    decreases s.len(),
{
    if s.len() > 0 && is_blank(s[s.len() - 1]) {
        spec_trim_end(s.drop_last())
    } else {
        s
    }
}

/// `s` without leading and trailing blanks.
pub open spec fn spec_trim(s: Seq<char>) -> Seq<char> {
    spec_trim_end(spec_trim_start(s))
}

pub fn trim(v: &Vec<char>) -> (r: Vec<char>)
    ensures
        r@ == spec_trim(v@),
{
    let mut a: usize = 0;
    proof {
        assert(v@.subrange(0, v@.len() as int) =~= v@);
    }
    while a < v.len() && is_blank_exec(v[a])
        invariant
            0 <= a <= v@.len(),
            spec_trim_start(v@) == spec_trim_start(v@.subrange(a as int, v@.len() as int)),
        decreases v@.len() - a,
    {
        proof {
            assert(v@.subrange(a as int, v@.len() as int).drop_first() =~= v@.subrange(
                a + 1 as int,
                v@.len() as int,
            ));
        }
        a += 1;
    }
    let mut b: usize = v.len();
    proof {
        assert(v@.subrange(a as int, v@.len() as int) == spec_trim_start(v@.subrange(
            a as int,
            v@.len() as int,
        ))) by {
            let t = v@.subrange(a as int, v@.len() as int);
            if t.len() > 0 && is_blank(t[0]) {
                assert(v@[a as int] == t[0]);
                assert(false);
            }
        }
    }
    while b > a && is_blank_exec(v[b - 1])
        invariant
            0 <= a <= b <= v@.len(),
            spec_trim_end(spec_trim_start(v@)) == spec_trim_end(
                v@.subrange(a as int, b as int),
            ),
            spec_trim_start(v@.subrange(a as int, v@.len() as int)) == v@.subrange(
                a as int,
                v@.len() as int,
            ),
        decreases b,
    {
        proof {
            assert(v@.subrange(a as int, b as int).drop_last() =~= v@.subrange(
                a as int,
                b - 1 as int,
            ));
        }
        b -= 1;
    }
    proof {
        let t = v@.subrange(a as int, b as int);
        if t.len() > 0 && is_blank(t[t.len() - 1]) {
            assert(v@[b - 1 as int] == t[t.len() - 1]);
            assert(false);
        }
    }
    subvec(v, a, b)
}

pub fn is_blank_exec(c: char) -> (r: bool)
    ensures
        r == is_blank(c),
{
    c == ' ' || c == '\t' || c == '\n' || c == '\r'
}

/// Last position of `c` in `s`, `-1` if there is none.
pub open spec fn spec_rfind(s: Seq<char>, c: char) -> int
    decreases s.len(),
{
    if s.len() == 0 {
        -1
    } else if s[s.len() - 1] == c {
        s.len() - 1
    } else {
        spec_rfind(s.drop_last(), c)
    }
}

pub proof fn lemma_spec_rfind(s: Seq<char>, c: char)
    ensures
        spec_rfind(s, c) == -1 ==> !seq_has(s, c),
        spec_rfind(s, c) != -1 ==> {
            let i = spec_rfind(s, c);
            &&& 0 <= i < s.len()
            &&& s[i] == c
            &&& forall|j: int| i < j < s.len() ==> s[j] != c
        },
    decreases s.len(),
{
    if s.len() > 0 && s[s.len() - 1] != c {
        lemma_spec_rfind(s.drop_last(), c);
        if spec_rfind(s.drop_last(), c) == -1 {
            if seq_has(s, c) {
                let w = choose|w: int| 0 <= w < s.len() && s[w] == c;
                assert(s.drop_last()[w] == c);
            }
        } else {
            assert(forall|j: int|
                spec_rfind(s, c) < j < s.len() - 1 ==> s.drop_last()[j] == s[j]);
        }
    }
}

pub fn rfind_char(v: &Vec<char>, c: char) -> (r: Option<usize>)
    ensures
        match r {
            Some(i) => i < v@.len() && spec_rfind(v@, c) == i,
            None => spec_rfind(v@, c) == -1,
        },
{
    proof {
        lemma_spec_rfind(v@, c);
    }
    let mut i: usize = v.len();
    while i > 0
        invariant
            0 <= i <= v@.len(),
            forall|j: int| i <= j < v@.len() ==> v@[j] != c,
        decreases i,
    {
        i -= 1;
        if v[i] == c {
            proof {
                lemma_spec_rfind(v@, c);
                if spec_rfind(v@, c) == -1 {
                    assert(seq_has(v@, c));
                }
                let k = spec_rfind(v@, c);
                if k < i {
                    assert(v@[i as int] != c);
                }
            }
            return Some(i);
        }
    }
    proof {
        if spec_rfind(v@, c) != -1 {
            assert(v@[spec_rfind(v@, c)] == c);
        }
    }
    None
}

/// Whether `s` ends with `suffix`.
pub open spec fn spec_ends_with(s: Seq<char>, suffix: Seq<char>) -> bool {
    s.len() >= suffix.len() && s.subrange(s.len() - suffix.len(), s.len() as int) == suffix
}

pub fn ends_with(v: &Vec<char>, suffix: &Vec<char>) -> (r: bool)
    ensures
        r == spec_ends_with(v@, suffix@),
{
    if v.len() < suffix.len() {
        return false;
    }
    let tail = subvec(v, v.len() - suffix.len(), v.len());
    vec_eq(&tail, suffix)
}

/// ASCII lowercasing of one character.
pub open spec fn spec_lower_char(c: char) -> char {
    if 'A' <= c && c <= 'Z' {
        ((c as u32) + 32) as char
    } else {
        c
    }
}

pub open spec fn spec_lower(s: Seq<char>) -> Seq<char> {
    Seq::new(s.len(), |i: int| spec_lower_char(s[i]))
}

pub fn lower_char(c: char) -> (r: char)
    ensures
        r == spec_lower_char(c),
{
    if 'A' <= c && c <= 'Z' {
        let b = (c as u8) + 32;
        let r = b as char;
        proof {
            assert(c as u32 <= 90);
            assert(b as u32 == c as u32 + 32);
            assert(r as u32 == b as u32);
        }
        r
    } else {
        c
    }
}

pub fn lower(v: &Vec<char>) -> (r: Vec<char>)
    ensures
        r@ == spec_lower(v@),
{
    let mut r: Vec<char> = Vec::new();
    let mut i: usize = 0;
    while i < v.len()
        invariant
            0 <= i <= v@.len(),
            r@.len() == i,
            forall|j: int| 0 <= j < i ==> r@[j] == spec_lower_char(v@[j]),
        decreases v@.len() - i,
    {
        r.push(lower_char(v[i]));
        i += 1;
    }
    proof {
        assert(r@ =~= spec_lower(v@));
    }
    r
}

/// The final extension of a path: what follows the last `.` of the last
/// `/`-separated segment, provided that dot is not the segment's first
/// character.
pub open spec fn spec_ext_of(p: Seq<char>) -> Option<Seq<char>> {
    let name_start = spec_rfind(p, '/') + 1;
    let name = p.subrange(name_start, p.len() as int);
    let dot = spec_rfind(name, '.');
    if dot >= 1 {
        Some(name.subrange(dot + 1, name.len() as int))
    } else {
        None
    }
}

pub fn ext_of(v: &Vec<char>) -> (r: Option<Vec<char>>)
    ensures
        match r {
            Some(e) => spec_ext_of(v@) == Some(e@),
            None => spec_ext_of(v@) is None,
        },
{
    let n = v.len();
    let name_start: usize = match rfind_char(v, '/') {
        Some(i) => {
            proof {
                assert(i < n);
            }
            i + 1
        }
        None => 0,
    };
    proof {
        lemma_spec_rfind(v@, '/');
        assert(name_start as int == spec_rfind(v@, '/') + 1);
    }
    let name = subvec(v, name_start, v.len());
    match rfind_char(&name, '.') {
        Some(d) => {
            if d >= 1 {
                Some(subvec(&name, d + 1, name.len()))
            } else {
                None
            }
        }
        None => None,
    }
}

// ---------------------------------------------------------------------------
// Lexicographic order on character sequences, for the snapshot sorting.
// ---------------------------------------------------------------------------

/// `a` comes no later than `b` in lexicographic order.
pub open spec fn seq_le(a: Seq<char>, b: Seq<char>) -> bool
    decreases a.len(),
{
    if a.len() == 0 {
        true
    } else if b.len() == 0 {
        false
    } else if a[0] != b[0] {
        a[0] < b[0]
    } else {
        seq_le(a.drop_first(), b.drop_first())
    }
}

/// The order is total.
pub proof fn lemma_seq_le_total(a: Seq<char>, b: Seq<char>)
    ensures
        seq_le(a, b) || seq_le(b, a),
    decreases a.len(),
{
    if a.len() > 0 && b.len() > 0 && a[0] == b[0] {
        lemma_seq_le_total(a.drop_first(), b.drop_first());
    }
}

pub fn chars_le(a: &Vec<char>, b: &Vec<char>) -> (r: bool)
    ensures
        r == seq_le(a@, b@),
{
    let mut i: usize = 0;
    proof {
        assert(a@.subrange(0, a@.len() as int) =~= a@);
        assert(b@.subrange(0, b@.len() as int) =~= b@);
    }
    while i < a.len() && i < b.len()
        invariant
            0 <= i <= a@.len(),
            0 <= i <= b@.len(),
            forall|j: int| 0 <= j < i ==> a@[j] == b@[j],
            seq_le(a@, b@) == seq_le(
                a@.subrange(i as int, a@.len() as int),
                b@.subrange(i as int, b@.len() as int),
            ),
        decreases a@.len() - i,
    {
        proof {
            let ra = a@.subrange(i as int, a@.len() as int);
            let rb = b@.subrange(i as int, b@.len() as int);
            assert(ra[0] == a@[i as int] && rb[0] == b@[i as int]);
            assert(ra.drop_first() =~= a@.subrange(i + 1 as int, a@.len() as int));
            assert(rb.drop_first() =~= b@.subrange(i + 1 as int, b@.len() as int));
        }
        if a[i] != b[i] {
            return a[i] < b[i];
        }
        i += 1;
    }
    proof {
        let ra = a@.subrange(i as int, a@.len() as int);
        let rb = b@.subrange(i as int, b@.len() as int);
        if i >= a@.len() {
            assert(ra.len() == 0);
        } else {
            assert(rb.len() == 0 && ra.len() > 0);
        }
    }
    a.len() <= b.len()
}

// ---------------------------------------------------------------------------
// Decimal rendering of machine integers, for the graph serialization.
// ---------------------------------------------------------------------------

pub open spec fn digit_char(d: nat) -> char {
    if d == 0 {
        '0'
    } else if d == 1 {
        '1'
    } else if d == 2 {
        '2'
    } else if d == 3 {
        '3'
    } else if d == 4 {
        '4'
    } else if d == 5 {
        '5'
    } else if d == 6 {
        '6'
    } else if d == 7 {
        '7'
    } else if d == 8 {
        '8'
    } else {
        '9'
    }
}

/// The decimal digits of `n`, most significant first.
pub open spec fn spec_dec(n: nat) -> Seq<char>
    decreases n,
{
    if n < 10 {
        seq![digit_char(n)]
    } else {
        spec_dec(n / 10).push(digit_char(n % 10))
    }
}

pub fn dec_of(n: usize) -> (r: Vec<char>)
    ensures
        r@ == spec_dec(n as nat),
    decreases n,
{
    let d = n % 10;
    let c: char = if d == 0 {
        '0'
    } else if d == 1 {
        '1'
    } else if d == 2 {
        '2'
    } else if d == 3 {
        '3'
    } else if d == 4 {
        '4'
    } else if d == 5 {
        '5'
    } else if d == 6 {
        '6'
    } else if d == 7 {
        '7'
    } else if d == 8 {
        '8'
    } else {
        '9'
    };
    if n < 10 {
        let r = vec![c];
        proof {
            assert(r@ =~= seq![digit_char(n as nat)]);
        }
        r
    } else {
        let mut r = dec_of(n / 10);
        r.push(c);
        r
    }
}

} // verus!
