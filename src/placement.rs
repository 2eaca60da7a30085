//! Where a file lands: the date folder under the output root, and a file
//! name that no existing entry of that folder already holds.

use crate::stamp::Stamp;
use crate::SortError;
use vstd::prelude::*;

verus! {

/// `part` appended to `base` as a path: an absolute `part` replaces `base`,
/// and a separator is put between them unless `base` is empty or ends in one.
pub open spec fn joined(base: Seq<char>, part: Seq<char>) -> Seq<char> {
    if part.len() > 0 && part[0] == '/' {
        part
    } else if base.len() == 0 {
        part
    } else if base.last() == '/' {
        base + part
    } else {
        base + seq!['/'] + part
    }
}

/// Appends `part` to the path `base`.
pub fn join_path(base: &str, part: &str) -> (r: String)
    ensures
        r@ == joined(base@, part@),
{
    let plen = part.unicode_len();
    let blen = base.unicode_len();
    if plen > 0 && part.get_char(0) == '/' {
        String::from_str(part)
    } else if blen == 0 {
        String::from_str(part)
    } else if base.get_char(blen - 1) == '/' {
        String::from_str(base).concat(part)
    } else {
        proof {
            reveal_strlit("/");
        }
        String::from_str(base).concat("/").concat(part)
    }
}

/// The folder a file dated `date` goes to: the date rendered under `pattern`,
/// below `output`.
pub open spec fn destination_dir_spec(output: Seq<char>, date: Stamp, pattern: Seq<char>) -> Option<
    Seq<char>,
> {
    match date.render_spec(pattern) {
        Some(t) => Some(joined(output, t)),
        None => None,
    }
}

/// The folder under `output` for a file dated `date`; a `/` in the rendered
/// pattern makes nested folders.
pub fn destination_dir(output: &str, date: &Stamp, pattern: &str) -> (r: Result<String, SortError>)
    requires
        date.wf(),
    ensures
        destination_dir_spec(output@, *date, pattern@) is None ==> r == Err::<String, SortError>(
            SortError::BadPattern,
        ),
        destination_dir_spec(output@, *date, pattern@) matches Some(d) ==> (r matches Ok(t) && t@
            == d),
{
    let fragment = date.render(pattern)?;
    Ok(join_path(output, fragment.as_str()))
}

/// The index of the last `.` in `s`, or -1.
pub open spec fn last_dot(s: Seq<char>) -> int
    decreases s.len(),
{
    if s.len() == 0 {
        -1
    } else if s.last() == '.' {
        s.len() - 1
    } else {
        last_dot(s.drop_last())
    }
}

/// The name has no extension: no dot but a leading one, or it is `..`.
pub open spec fn plain_name(name: Seq<char>) -> bool {
    last_dot(name) <= 0 || name =~= seq!['.', '.']
}

/// A file name without its extension.
pub open spec fn stem_of(name: Seq<char>) -> Seq<char> {
    if plain_name(name) {
        name
    } else {
        name.subrange(0, last_dot(name))
    }
}

/// What follows the last dot of a file name, empty where it has none.
pub open spec fn extension_of(name: Seq<char>) -> Seq<char> {
    if plain_name(name) {
        Seq::empty()
    } else {
        name.subrange(last_dot(name) + 1, name.len() as int)
    }
}

pub open spec fn digit_char(d: int) -> char {
    if d == 0 {
        '0'
    } else if d == 1 {
        '1'
    } else if d == 2 {
        '2'
    } else if d == 3 {
        '3'
    } else if d == 4 {
        '4'
    } else if d == 5 {
        '5'
    } else if d == 6 {
        '6'
    } else if d == 7 {
        '7'
    } else if d == 8 {
        '8'
    } else {
        '9'
    }
}

/// The decimal digits of `n`, without leading zeros.
pub open spec fn decimal(n: nat) -> Seq<char>
    decreases n,
{
    if n < 10 {
        seq![digit_char(n as int)]
    } else {
        decimal(n / 10) + seq![digit_char((n % 10) as int)]
    }
}

/// The `k`-th alternative to a file name: `stem (k).ext`, or `stem (k)`
/// where the name has no extension.
pub open spec fn candidate(name: Seq<char>, k: nat) -> Seq<char> {
    let ext = extension_of(name);
    let tail = if ext.len() > 0 {
        seq!['.'] + ext
    } else {
        Seq::empty()
    };
    stem_of(name) + seq![' ', '('] + decimal(k) + seq![')'] + tail
}

/// The names held by a list of entries.
pub open spec fn name_set(taken: Seq<String>) -> Set<Seq<char>> {
    taken.map_values(|t: String| t@).to_set()
}

fn digit_text(d: u64) -> (r: &'static str)
    requires
        d < 10,
    ensures
        r@ == seq![digit_char(d as int)],
{
    proof {
        reveal_strlit("0");
        reveal_strlit("1");
        reveal_strlit("2");
        reveal_strlit("3");
        reveal_strlit("4");
        reveal_strlit("5");
        reveal_strlit("6");
        reveal_strlit("7");
        reveal_strlit("8");
        reveal_strlit("9");
    }
    let r = if d == 0 {
        "0"
    } else if d == 1 {
        "1"
    } else if d == 2 {
        "2"
    } else if d == 3 {
        "3"
    } else if d == 4 {
        "4"
    } else if d == 5 {
        "5"
    } else if d == 6 {
        "6"
    } else if d == 7 {
        "7"
    } else if d == 8 {
        "8"
    } else {
        "9"
    };
    assert(r@ =~= seq![digit_char(d as int)]);
    r
}

/// The decimal text of `n`.
pub fn decimal_text(n: u64) -> (r: String)
    ensures
        r@ == decimal(n as nat),
    decreases n,
{
    if n < 10 {
        String::from_str(digit_text(n))
    } else {
        let mut r = decimal_text(n / 10);
        r.append(digit_text(n % 10));
        r
    }
}

proof fn lemma_decimal_len(n: nat)
    ensures
        decimal(n).len() >= 1,
        n >= 10 ==> decimal(n).len() >= 2,
    decreases n,
{
    if n >= 10 {
        lemma_decimal_len(n / 10);
    }
}

/// Different numbers have different decimal texts.
pub proof fn lemma_decimal_injective(a: nat, b: nat)
    requires
        decimal(a) == decimal(b),
    ensures
        a == b,
    decreases a,
{
    lemma_decimal_len(a);
    lemma_decimal_len(b);
    if a >= 10 && b >= 10 {
        let da = decimal(a);
        assert(da.last() == digit_char((a % 10) as int));
        assert(decimal(b).last() == digit_char((b % 10) as int));
        assert(da.drop_last() =~= decimal(a / 10));
        assert(decimal(b).drop_last() =~= decimal(b / 10));
        lemma_decimal_injective(a / 10, b / 10);
    } else {
        assert(decimal(a)[0] == digit_char(a as int));
        assert(decimal(b)[0] == digit_char(b as int));
    }
}

/// Different counters give different alternative names.
pub proof fn lemma_candidate_injective(name: Seq<char>, a: nat, b: nat)
    requires
        candidate(name, a) == candidate(name, b),
    ensures
        a == b,
{
    let p = stem_of(name) + seq![' ', '('];
    let ext = extension_of(name);
    let tail = if ext.len() > 0 {
        seq!['.'] + ext
    } else {
        Seq::empty()
    };
    let ca = candidate(name, a);
    assert(ca =~= p + decimal(a) + (seq![')'] + tail));
    assert(candidate(name, b) =~= p + decimal(b) + (seq![')'] + tail));
    assert(decimal(a).len() == decimal(b).len());
    let lo = p.len() as int;
    let hi = lo + decimal(a).len();
    assert(ca.subrange(lo, hi) =~= decimal(a));
    assert(candidate(name, b).subrange(lo, hi) =~= decimal(b));
    lemma_decimal_injective(a, b);
}

/// However many names a folder holds, one of the first `taken.len() + 1`
/// alternatives to a name is free.
pub proof fn lemma_free_candidate_exists(name: Seq<char>, taken: Seq<String>)
    ensures
        exists|k: nat|
            1 <= k <= taken.len() + 1 && !name_set(taken).contains(#[trigger] candidate(name, k)),
{
    if forall|k: nat| 1 <= k <= taken.len() + 1 ==> name_set(taken).contains(#[trigger] candidate(name, k)) {
        let n = taken.len();
        let cands = Seq::new(n + 1, |i: int| candidate(name, (i + 1) as nat));
        assert forall|i: int, j: int| 0 <= i < cands.len() && 0 <= j < cands.len() && i != j implies
            cands[i] != cands[j] by {
            if cands[i] == cands[j] {
                lemma_candidate_injective(name, (i + 1) as nat, (j + 1) as nat);
            }
        }
        cands.unique_seq_to_set();
        let views = taken.map_values(|t: String| t@);
        views.lemma_cardinality_of_set();
        assert forall|c: Seq<char>| cands.to_set().contains(c) implies views.to_set().contains(c) by {
            let i = choose|i: int| 0 <= i < cands.len() && cands[i] == c;
            assert(name_set(taken).contains(candidate(name, (i + 1) as nat)));
        }
        vstd::seq_lib::seq_to_set_is_finite(views);
        vstd::set_lib::lemma_len_subset(cands.to_set(), views.to_set());
    }
}

proof fn lemma_last_dot_bounds(s: Seq<char>)
    ensures
        -1 <= last_dot(s) < s.len(),
    decreases s.len(),
{
    if s.len() > 0 {
        lemma_last_dot_bounds(s.drop_last());
    }
}

/// The index of the last dot of `s`, as `last_dot` gives it.
fn last_dot_index(s: &str) -> (r: Option<usize>)
    ensures
        r matches Some(i) ==> last_dot(s@) == i && i < s@.len(),
        r is None ==> last_dot(s@) == -1,
{
    let n = s.unicode_len();
    let mut found: Option<usize> = None;
    let mut i: usize = 0;
    assert(s@.subrange(0, 0).len() == 0);
    while i < n
        invariant
            0 <= i <= n,
            n == s@.len(),
            found matches Some(j) ==> last_dot(s@.subrange(0, i as int)) == j,
            found is None ==> last_dot(s@.subrange(0, i as int)) == -1,
        decreases n - i,
    {
        assert(s@.subrange(0, i + 1).drop_last() =~= s@.subrange(0, i as int));
        if s.get_char(i) == '.' {
            found = Some(i);
        }
        i = i + 1;
    }
    assert(s@.subrange(0, n as int) =~= s@);
    proof {
        lemma_last_dot_bounds(s@);
    }
    found
}

/// The `k`-th alternative to a file name: `stem (k).ext`.
pub fn candidate_name(name: &str, k: u64) -> (r: String)
    ensures
        r@ == candidate(name@, k as nat),
{
    proof {
        reveal_strlit(" (");
        reveal_strlit(")");
        reveal_strlit(".");
    }
    let n = name.unicode_len();
    let dot = last_dot_index(name);
    let dotdot = n == 2 && name.get_char(0) == '.' && name.get_char(1) == '.';
    assert(dotdot == (name@ =~= seq!['.', '.']));
    let (stem, ext) = match dot {
        Some(d) => if d > 0 && !dotdot {
            (name.substring_char(0, d), name.substring_char(d + 1, n))
        } else {
            (name, name.substring_char(0, 0))
        },
        None => (name, name.substring_char(0, 0)),
    };
    assert(stem@ == stem_of(name@));
    assert(ext@ =~= extension_of(name@));
    let digits = decimal_text(k);
    let mut r = String::from_str(stem).concat(" (").concat(digits.as_str()).concat(")");
    if ext.unicode_len() > 0 {
        r = r.concat(".").concat(ext);
    }
    assert(r@ =~= candidate(name@, k as nat));
    r
}

/// Whether one of the entries holds `name`.
pub fn holds_name(taken: &Vec<String>, name: &String) -> (r: bool)
    ensures
        r == name_set(taken@).contains(name@),
{
    let ghost views = taken@.map_values(|t: String| t@);
    let mut i: usize = 0;
    while i < taken.len()
        invariant
            0 <= i <= taken@.len(),
            views == taken@.map_values(|t: String| t@),
            forall|j: int| 0 <= j < i ==> taken@[j]@ != name@,
        decreases taken@.len() - i,
    {
        if taken[i] == *name {
            assert(views[i as int] == name@);
            return true;
        }
        i = i + 1;
    }
    assert forall|j: int| 0 <= j < views.len() implies views[j] != name@ by {
        assert(views[j] == taken@[j]@);
    }
    false
}

/// The name a file called `name` takes in a folder whose entries hold the
/// names `taken`, when `name` is one of them: `stem (k).ext` for the
/// smallest `k` from 1 up that no entry holds.
pub fn resolve_collision(name: &str, taken: &Vec<String>) -> (r: Result<String, SortError>)
    requires
        taken@.len() < usize::MAX,
    ensures
        name@.len() == 0 ==> r == Err::<String, SortError>(SortError::Unresolvable),
        name@.len() > 0 ==> (r matches Ok(t) && exists|k: nat|
            1 <= k && t@ == candidate(name@, k) && !name_set(taken@).contains(t@) && forall|j: nat|
                1 <= j < k ==> name_set(taken@).contains(#[trigger] candidate(name@, j))),
{
    if name.unicode_len() == 0 {
        return Err(SortError::Unresolvable);
    }
    let n = taken.len();
    let mut k: usize = 1;
    while k <= n
        invariant
            1 <= k <= n + 1,
            n == taken@.len(),
            name@.len() > 0,
            n < usize::MAX,
            forall|j: nat| 1 <= j < k ==> name_set(taken@).contains(#[trigger] candidate(name@, j)),
        decreases n + 1 - k,
    {
        let c = candidate_name(name, k as u64);
        if !holds_name(taken, &c) {
            return Ok(c);
        }
        k = k + 1;
    }
    proof {
        lemma_free_candidate_exists(name@, taken@);
    }
    let c = candidate_name(name, k as u64);
    proof {
        let k0 = choose|k0: nat| 1 <= k0 <= n + 1 && !name_set(taken@).contains(
            #[trigger] candidate(name@, k0),
        );
        if k0 < k {
            assert(name_set(taken@).contains(candidate(name@, k0)));
        }
    }
    Ok(c)
}

/// `t` is the name under which a file called `name` is placed in a folder
/// whose entries hold the names `taken`: its own where that is free, else
/// `stem (k).ext` for the smallest `k` from 1 up that is free.
pub open spec fn is_placement(name: Seq<char>, taken: Set<Seq<char>>, t: Seq<char>) -> bool {
    if !taken.contains(name) {
        t == name
    } else {
        exists|k: nat|
            1 <= k && t == candidate(name, k) && !taken.contains(t) && forall|j: nat|
                1 <= j < k ==> taken.contains(#[trigger] candidate(name, j))
    }
}

/// A placement never lands on a name already held.
pub proof fn lemma_placement_is_free(name: Seq<char>, taken: Set<Seq<char>>, t: Seq<char>)
    requires
        is_placement(name, taken, t),
    ensures
        !taken.contains(t),
{
}

/// Placing the same file twice into one folder, the second time after the
/// first copy has landed, gives a second name that differs from the first
/// and from every name held before: a rerun adds one more disambiguated copy
/// and overwrites nothing.
pub proof fn lemma_rerun_disambiguates(
    name: Seq<char>,
    taken: Set<Seq<char>>,
    first: Seq<char>,
    second: Seq<char>,
)
    requires
        is_placement(name, taken, first),
        is_placement(name, taken.insert(first), second),
    ensures
        second != first,
        second != name,
        !taken.contains(second),
        exists|k: nat| 1 <= k && second == candidate(name, k),
{
    assert(taken.insert(first).contains(name));
}

/// The name under which a file called `name` is placed in a folder whose
/// entries hold the names `taken`; an error where the name is taken and has
/// no stem to disambiguate.
pub fn free_name(name: &str, taken: &Vec<String>) -> (r: Result<String, SortError>)
    requires
        taken@.len() < usize::MAX,
    ensures
        name_set(taken@).contains(name@) && name@.len() == 0 ==> r == Err::<String, SortError>(
            SortError::Unresolvable,
        ),
        !(name_set(taken@).contains(name@) && name@.len() == 0) ==> (r matches Ok(t)
            && is_placement(name@, name_set(taken@), t@)),
{
    let own = String::from_str(name);
    if !holds_name(taken, &own) {
        Ok(own)
    } else {
        resolve_collision(name, taken)
    }
}

} // verus!
