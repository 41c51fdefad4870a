use vstd::prelude::*;
use vstd::string::*;

verus! {

/// Position of the first `'_'` in `s`, if any.
pub open spec fn first_underscore(s: Seq<char>) -> Option<int>
    decreases s.len(),
{
    if s.len() == 0 {
        None
    } else if s[0] == '_' {
        Some(0)
    } else {
        match first_underscore(s.drop_first()) {
            Some(i) => Some(i + 1),
            None => None,
        }
    }
}

/// What is left of `s` once its `n` first `'_'`-separated fields are dropped;
/// empty when `s` has fewer than `n` underscores.
pub open spec fn skip_fields(s: Seq<char>, n: nat) -> Seq<char>
    decreases n,
{
    if n == 0 {
        s
    } else {
        match first_underscore(s) {
            Some(i) => skip_fields(s.subrange(i + 1, s.len() as int), (n - 1) as nat),
            None => Seq::empty(),
        }
    }
}

proof fn lemma_first_underscore_bounds(s: Seq<char>)
    ensures
        first_underscore(s) matches Some(i) ==> 0 <= i < s.len() && s[i] == '_' && (forall|k: int|
            0 <= k < i ==> s[k] != '_'),
        first_underscore(s) is None ==> forall|k: int| 0 <= k < s.len() ==> s[k] != '_',
    decreases s.len(),
{
    if s.len() > 0 && s[0] != '_' {
        lemma_first_underscore_bounds(s.drop_first());
        assert forall|k: int| 1 <= k < s.len() implies s[k] == s.drop_first()[k - 1] by {}
    }
}

} // verus!

verus! {

proof fn lemma_skip_one_field(t: Seq<char>, j: int, n: nat)
    requires
        0 <= j < t.len(),
        t[j] == '_',
        forall|k: int| 0 <= k < j ==> t[k] != '_',
        n > 0,
    ensures
        skip_fields(t, n) == skip_fields(t.subrange(j + 1, t.len() as int), (n - 1) as nat),
{
    lemma_first_underscore_bounds(t);
}

/// Display name of a migration: its file name without the leading date and
/// time fields, i.e. what follows the second `'_'` (empty when there is none).
pub fn get_migration_display_name(migration_file_name: &str) -> (name: String)
    ensures
        name@ == skip_fields(migration_file_name@, 2),
{
    let len = migration_file_name.unicode_len();
    let ghost s = migration_file_name@;
    let mut start: usize = 0;
    let mut count: usize = 0;
    let mut i: usize = 0;
    assert(s.subrange(0, len as int) =~= s);
    while i < len
        invariant
            len == s.len(),
            s == migration_file_name@,
            start <= i <= len,
            count < 2,
            forall|k: int| start <= k < i ==> s[k] != '_',
            skip_fields(s, 2) == skip_fields(s.subrange(start as int, len as int), (2 - count) as nat),
        decreases len - i,
    {
        let c = migration_file_name.get_char(i);
        if c == '_' {
            proof {
                let t = s.subrange(start as int, len as int);
                assert forall|k: int| 0 <= k < i - start implies t[k] != '_' by {}
                lemma_skip_one_field(t, i - start, (2 - count) as nat);
                assert(t.subrange(i - start + 1, t.len() as int) =~= s.subrange(i + 1, len as int));
            }
            count = count + 1;
            start = i + 1;
            if count == 2 {
                let rest = migration_file_name.substring_char(start, len);
                return String::from_str(rest);
            }
        }
        i = i + 1;
    }
    proof {
        let t = s.subrange(start as int, len as int);
        lemma_first_underscore_bounds(t);
        if first_underscore(t) is Some {
            let j = first_underscore(t)->0;
            assert(t[j] == s[start + j]);
        }
    }
    String::new()
}

} // verus!
