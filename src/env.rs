//! Importing the container's runtime environment into a task.
//!
//! The container's environment block is a run of `KEY=VALUE` entries, each
//! ended by a NUL. The import touches only the container's variables and
//! the locale variables `LANG`, `LANGUAGE` and `LC_ALL`. For a key of the
//! container, a value the descriptor gives wins and a key it blanks ends
//! unset; any other key takes the container's value, except a locale
//! variable. A locale variable ends unset unless the descriptor gives it a
//! value. Every other variable of the task stays as it was.
use vstd::prelude::*;

use crate::naming::{plugin_string, tagged};
use crate::text::{find_char, lemma_find_after_prefix, lemma_find_char_bounds, lemma_find_none, push_char};

verus! {

/// The views of a list of strings.
pub open spec fn strings_view(v: Seq<String>) -> Seq<Seq<char>> {
    v.map_values(|e: String| e@)
}

/// The pieces of `s` between occurrences of `sep`, as `str::split` gives them.
pub open spec fn split_on(s: Seq<char>, sep: char) -> Seq<Seq<char>>
    decreases s.len(),
{
    let i = find_char(s, sep);
    if i < 0 || i >= s.len() {
        seq![s]
    } else {
        seq![s.subrange(0, i)] + split_on(s.subrange(i + 1, s.len() as int), sep)
    }
}

/// The NUL-terminated entries of a block; an unterminated last entry counts.
pub open spec fn nul_entries(s: Seq<char>) -> Seq<Seq<char>> {
    let p = split_on(s, '\0');
    if p.last().len() == 0 {
        p.drop_last()
    } else {
        p
    }
}

/// Splits `block` at every `sep`, as `str::split` does.
pub fn split_at_char(block: &str, sep: char) -> (r: Vec<String>)
    ensures
        strings_view(r@) == split_on(block@, sep),
{
    let mut done: Vec<String> = Vec::new();
    let mut cur = String::new();
    let ghost s = block@;
    assert(cur@ + s.subrange(0, s.len() as int) =~= s);
    for c in it: block.chars()
        invariant
            it.seq() == s,
            0 <= it.index() <= s.len(),
            forall|j: int| 0 <= j < cur@.len() ==> cur@[j] != sep,
            split_on(s, sep) == strings_view(done@) + split_on(
                cur@ + s.subrange(it.index() as int, s.len() as int),
                sep,
            ),
    {
        let ghost i = it.index();
        let ghost rest = s.subrange(i as int, s.len() as int);
        assert(rest[0] == c);
        if c == sep {
            let ghost old_done = done@;
            let ghost old_cur = cur@;
            proof {
                lemma_find_after_prefix(cur@, rest, sep);
                let whole = cur@ + rest;
                assert(whole.subrange(0, cur@.len() as int) =~= cur@);
                assert(whole.subrange(cur@.len() as int + 1, whole.len() as int) =~= s.subrange(
                    i + 1,
                    s.len() as int,
                ));
            }
            done.push(cur);
            cur = String::new();
            proof {
                assert(strings_view(done@) =~= strings_view(old_done)
                    + seq![old_cur]);
                assert(cur@ + s.subrange(i + 1, s.len() as int) =~= s.subrange(
                    i + 1,
                    s.len() as int,
                ));
            }
        } else {
            let ghost before = cur@;
            push_char(&mut cur, c);
            assert(cur@ + s.subrange(i + 1, s.len() as int) =~= before + rest);
        }
    }
    proof {
        assert(cur@ + s.subrange(s.len() as int, s.len() as int) =~= cur@);
        lemma_find_none(cur@, sep);
    }
    let ghost old_done = done@;
    done.push(cur);
    assert(strings_view(done@) =~= strings_view(old_done) + seq![done@.last()@]);
    done
}

/// Splits a block into its NUL-terminated entries.
pub fn split_nul_entries(block: &str) -> (r: Vec<String>)
    ensures
        strings_view(r@) == nul_entries(block@),
{
    let mut pieces = split_at_char(block, '\0');
    let ghost all = strings_view(pieces@);
    assert(all.len() > 0) by {
        reveal_with_fuel(split_on, 1);
    }
    let n = pieces.len();
    if pieces[n - 1].unicode_len() == 0 {
        pieces.pop();
        assert(strings_view(pieces@) =~= all.drop_last());
    }
    pieces
}

/// A `KEY=VALUE` entry split at its first `=`.
pub open spec fn kv_split(e: Seq<char>) -> (Seq<char>, Seq<char>) {
    let i = find_char(e, '=');
    (e.subrange(0, i), e.subrange(i + 1, e.len() as int))
}

/// Every entry of the block holds a `=`.
pub open spec fn environ_well_formed(block: Seq<char>) -> bool {
    forall|j: int|
        0 <= j < nul_entries(block).len() ==> find_char(#[trigger] nul_entries(block)[j], '=') >= 0
}

/// The variables of a well-formed block, in order.
pub open spec fn environ_vars(block: Seq<char>) -> Seq<(Seq<char>, Seq<char>)> {
    nul_entries(block).map_values(|e: Seq<char>| kv_split(e))
}

/// The views of a list of string pairs.
pub open spec fn pairs_view(v: Seq<(String, String)>) -> Seq<(Seq<char>, Seq<char>)> {
    v.map_values(|p: (String, String)| (p.0@, p.1@))
}

/// Splits `KEY=VALUE` at its first `=`; `None` where there is none.
pub fn split_key_value(e: &str) -> (r: Option<(String, String)>)
    ensures
        find_char(e@, '=') < 0 ==> r is None,
        find_char(e@, '=') >= 0 ==> (r matches Some(p) && (p.0@, p.1@) == kv_split(e@)),
{
    let ghost s = e@;
    let mut key = String::new();
    let mut value = String::new();
    let mut seen = false;
    proof {
        lemma_find_char_bounds(s, '=');
    }
    for c in it: e.chars()
        invariant
            it.seq() == s,
            0 <= it.index() <= s.len(),
            -1 <= find_char(s, '=') < s.len(),
            !seen ==> value@ == Seq::<char>::empty(),
            !seen ==> key@ == s.subrange(0, it.index() as int) && forall|j: int|
                0 <= j < it.index() ==> s[j] != '=',
            seen ==> 0 <= find_char(s, '=') < it.index() && key@ == s.subrange(
                0,
                find_char(s, '='),
            ) && value@ == s.subrange(find_char(s, '=') + 1, it.index() as int),
    {
        let ghost i = it.index() as int;
        if !seen {
            if c == '=' {
                proof {
                    lemma_find_after_prefix(s.subrange(0, i), s.subrange(i, s.len() as int), '=');
                    assert(s.subrange(0, i) + s.subrange(i, s.len() as int) =~= s);
                }
                seen = true;
                assert(value@ =~= s.subrange(i + 1, i + 1));
            } else {
                push_char(&mut key, c);
                assert(key@ =~= s.subrange(0, i + 1));
            }
        } else {
            push_char(&mut value, c);
            assert(value@ =~= s.subrange(find_char(s, '=') + 1, i + 1));
        }
    }
    if seen {
        Some((key, value))
    } else {
        proof {
            lemma_find_none(s, '=');
        }
        None
    }
}

/// Reads a container's environment block into its variables, in order.
/// Fails on the first entry that holds no `=`.
pub fn parse_environ(block: &str) -> (r: Result<Vec<(String, String)>, String>)
    ensures
        r is Ok <==> environ_well_formed(block@),
        r matches Ok(v) ==> pairs_view(v@) == environ_vars(block@),
        r matches Err(e) ==> exists|j: int|
            0 <= j < nul_entries(block@).len() && find_char(nul_entries(block@)[j], '=') < 0
                && (forall|k: int| 0 <= k < j ==> find_char(#[trigger] nul_entries(block@)[k], '=') >= 0)
                && e@ == tagged("couldn't parse environ value "@ + nul_entries(block@)[j]),
{
    let entries = split_nul_entries(block);
    let ghost ents = nul_entries(block@);
    let mut vars: Vec<(String, String)> = Vec::new();
    let mut i: usize = 0;
    while i < entries.len()
        invariant
            strings_view(entries@) == ents,
            ents == nul_entries(block@),
            0 <= i <= entries.len(),
            pairs_view(vars@) == ents.subrange(0, i as int).map_values(|e: Seq<char>| kv_split(e)),
            forall|j: int| 0 <= j < i ==> find_char(#[trigger] ents[j], '=') >= 0,
        decreases entries.len() - i,
    {
        assert(entries@[i as int]@ == ents[i as int]);
        match split_key_value(entries[i].as_str()) {
            Some(p) => {
                let ghost before = vars@;
                vars.push(p);
                assert(pairs_view(vars@) =~= pairs_view(before).push((p.0@, p.1@)));
                assert(ents.subrange(0, i + 1).map_values(|e: Seq<char>| kv_split(e))
                    =~= ents.subrange(0, i as int).map_values(|e: Seq<char>| kv_split(e)).push(
                    kv_split(ents[i as int]),
                ));
            },
            None => {
                assert(strings_view(entries@).len() == entries@.len());
                assert(find_char(nul_entries(block@)[i as int], '=') < 0);
                assert(!environ_well_formed(block@));
                let mut msg = String::from_str("couldn't parse environ value ");
                msg.append(entries[i].as_str());
                return Err(plugin_string(msg.as_str()));
            },
        }
        i = i + 1;
    }
    assert(ents.subrange(0, ents.len() as int) =~= ents);
    Ok(vars)
}

/// The map that a list of pairs sets, a later pair overriding an earlier
/// one of the same key.
pub open spec fn assoc_map(s: Seq<(Seq<char>, Seq<char>)>) -> Map<Seq<char>, Seq<char>>
    decreases s.len(),
{
    if s.len() == 0 {
        Map::empty()
    } else {
        assoc_map(s.drop_last()).insert(s.last().0, s.last().1)
    }
}

proof fn lemma_assoc_last(s: Seq<(Seq<char>, Seq<char>)>, k: Seq<char>, i: int)
    requires
        0 <= i < s.len(),
        s[i].0 == k,
        forall|j: int| i < j < s.len() ==> s[j].0 != k,
    ensures
        assoc_map(s).contains_key(k),
        assoc_map(s)[k] == s[i].1,
    decreases s.len(),
{
    if i < s.len() - 1 {
        lemma_assoc_last(s.drop_last(), k, i);
    }
}

proof fn lemma_assoc_absent(s: Seq<(Seq<char>, Seq<char>)>, k: Seq<char>)
    requires
        forall|j: int| 0 <= j < s.len() ==> s[j].0 != k,
    ensures
        !assoc_map(s).contains_key(k),
    decreases s.len(),
{
    if s.len() > 0 {
        lemma_assoc_absent(s.drop_last(), k);
    }
}

/// A key is set exactly where some pair names it.
proof fn lemma_assoc_dom(s: Seq<(Seq<char>, Seq<char>)>, k: Seq<char>)
    ensures
        assoc_map(s).contains_key(k) <==> exists|j: int| 0 <= j < s.len() && s[j].0 == k,
    decreases s.len(),
{
    if s.len() > 0 {
        lemma_assoc_dom(s.drop_last(), k);
        if assoc_map(s).contains_key(k) && s.last().0 != k {
            let j = choose|j: int| 0 <= j < s.drop_last().len() && s.drop_last()[j].0 == k;
            assert(s[j].0 == k);
        }
        if exists|j: int| 0 <= j < s.len() && s[j].0 == k {
            let j = choose|j: int| 0 <= j < s.len() && s[j].0 == k;
            if j < s.len() - 1 {
                assert(s.drop_last()[j].0 == k);
            }
        }
    }
}

proof fn lemma_assoc_prefix(s: Seq<(Seq<char>, Seq<char>)>, j: int)
    requires
        0 <= j < s.len(),
    ensures
        assoc_map(s.subrange(0, j + 1)) == assoc_map(s.subrange(0, j)).insert(s[j].0, s[j].1),
{
    assert(s.subrange(0, j + 1).drop_last() =~= s.subrange(0, j));
}

proof fn lemma_assoc_push(s: Seq<(Seq<char>, Seq<char>)>, p: (Seq<char>, Seq<char>))
    ensures
        assoc_map(s.push(p)) == assoc_map(s).insert(p.0, p.1),
{
    assert(s.push(p).drop_last() =~= s);
}

/// Finds the pair that sets `k` in a list of pairs: the last one naming it.
pub fn lookup(v: &Vec<(String, String)>, k: &String) -> (r: Option<usize>)
    ensures
        r is None ==> !assoc_map(pairs_view(v@)).contains_key(k@),
        r matches Some(i) ==> (i < v.len() && v@[i as int].0@ == k@ && assoc_map(
            pairs_view(v@),
        ).contains_key(k@) && assoc_map(pairs_view(v@))[k@] == v@[i as int].1@),
{
    let ghost pv = pairs_view(v@);
    let mut i: usize = v.len();
    while i > 0
        invariant
            i <= v.len(),
            pv == pairs_view(v@),
            forall|j: int| i <= j < v.len() ==> pv[j].0 != k@,
        decreases i,
    {
        i = i - 1;
        if v[i].0 == *k {
            proof {
                lemma_assoc_last(pv, k@, i as int);
            }
            return Some(i);
        }
    }
    proof {
        lemma_assoc_absent(pv, k@);
    }
    None
}

/// The locale variables that a container does not pass on by itself.
pub open spec fn is_locale(k: Seq<char>) -> bool {
    k == "LANG"@ || k == "LANGUAGE"@ || k == "LC_ALL"@
}

/// The descriptor gives `k` a value.
pub open spec fn defines(d: Map<Seq<char>, Seq<char>>, k: Seq<char>) -> bool {
    d.contains_key(k) && d[k].len() > 0
}

/// The descriptor asks for `k` to be unset.
pub open spec fn blanks(d: Map<Seq<char>, Seq<char>>, k: Seq<char>) -> bool {
    d.contains_key(k) && d[k].len() == 0
}

/// The keys that the import removes from the task: the container's keys
/// that the descriptor blanks, and the locale variables to which the
/// descriptor gives no value.
pub open spec fn unset_keys(
    d: Map<Seq<char>, Seq<char>>,
    c: Map<Seq<char>, Seq<char>>,
) -> Set<Seq<char>> {
    Set::new(
        |k: Seq<char>| (blanks(d, k) && c.contains_key(k)) || (is_locale(k) && !defines(d, k)),
    )
}

/// The container's variables that the descriptor does not mention.
pub open spec fn container_part(
    c: Map<Seq<char>, Seq<char>>,
    d: Map<Seq<char>, Seq<char>>,
) -> Map<Seq<char>, Seq<char>> {
    Map::new(|k: Seq<char>| c.contains_key(k) && !d.contains_key(k) && !is_locale(k), |k| c[k])
}

/// The container's variables, among the keys of `seen`, to which the
/// descriptor gives a value of its own.
pub open spec fn defined_part(
    seen: Map<Seq<char>, Seq<char>>,
    d: Map<Seq<char>, Seq<char>>,
    c: Map<Seq<char>, Seq<char>>,
) -> Map<Seq<char>, Seq<char>> {
    Map::new(|k: Seq<char>| seen.contains_key(k) && defines(d, k) && c.contains_key(k), |k| d[k])
}

/// The variables that the import sets in the task.
pub open spec fn set_vars(
    d: Map<Seq<char>, Seq<char>>,
    c: Map<Seq<char>, Seq<char>>,
) -> Map<Seq<char>, Seq<char>> {
    container_part(c, d).union_prefer_right(defined_part(d, d, c))
}

/// A task environment after removing `unset` and then setting `set`.
pub open spec fn apply_env(
    env: Map<Seq<char>, Seq<char>>,
    unset: Set<Seq<char>>,
    set: Map<Seq<char>, Seq<char>>,
) -> Map<Seq<char>, Seq<char>> {
    env.remove_keys(unset).union_prefer_right(set)
}

/// The environment a task ends with, given its own `env`, the descriptor's
/// variables `d` and the container's `c`.
pub open spec fn imported_env(
    env: Map<Seq<char>, Seq<char>>,
    d: Map<Seq<char>, Seq<char>>,
    c: Map<Seq<char>, Seq<char>>,
) -> Map<Seq<char>, Seq<char>> {
    Map::new(
        |k: Seq<char>|
            if c.contains_key(k) {
                defines(d, k) || (!d.contains_key(k) && !is_locale(k))
            } else {
                env.contains_key(k) && !(is_locale(k) && !defines(d, k))
            },
        |k: Seq<char>|
            if c.contains_key(k) && defines(d, k) {
                d[k]
            } else if c.contains_key(k) {
                c[k]
            } else {
                env[k]
            },
    )
}

/// The set of views of a list of strings.
pub open spec fn key_set(v: Seq<String>) -> Set<Seq<char>> {
    Set::new(|k: Seq<char>| exists|j: int| 0 <= j < v.len() && v[j]@ == k)
}

proof fn lemma_key_set_push(v: Seq<String>, x: String)
    ensures
        key_set(v.push(x)) == key_set(v).insert(x@),
{
    assert forall|k: Seq<char>| key_set(v.push(x)).contains(k) implies key_set(v).insert(
        x@,
    ).contains(k) by {
        let j = choose|j: int| 0 <= j < v.push(x).len() && v.push(x)[j]@ == k;
        if j < v.len() {
            assert(v[j]@ == k);
        }
    }
    assert forall|k: Seq<char>| key_set(v).insert(x@).contains(k) implies key_set(
        v.push(x),
    ).contains(k) by {
        if k == x@ {
            assert(v.push(x)[v.len() as int]@ == k);
        } else {
            let j = choose|j: int| 0 <= j < v.len() && v[j]@ == k;
            assert(v.push(x)[j]@ == k);
        }
    }
    assert(key_set(v.push(x)) =~= key_set(v).insert(x@));
}

/// What a task does to its environment to take on the container's: remove
/// every key of `unset`, then set each pair of `set` in order.
pub struct EnvPlan {
    pub unset: Vec<String>,
    pub set: Vec<(String, String)>,
}

impl EnvPlan {
    /// The keys the plan removes.
    pub open spec fn unset_view(&self) -> Set<Seq<char>> {
        key_set(self.unset@)
    }

    /// The variables the plan sets.
    pub open spec fn set_view(&self) -> Map<Seq<char>, Seq<char>> {
        assoc_map(pairs_view(self.set@))
    }
}

fn push_unset_locale(unset: &mut Vec<String>, desc_env: &Vec<(String, String)>, name: String)
    requires
        is_locale(name@),
    ensures
        key_set(final(unset)@) == if defines(assoc_map(pairs_view(desc_env@)), name@) {
            key_set(old(unset)@)
        } else {
            key_set(old(unset)@).insert(name@)
        },
{
    let ghost before = unset@;
    let defined = match lookup(desc_env, &name) {
        Some(i) => desc_env[i].1.unicode_len() > 0,
        None => false,
    };
    if !defined {
        unset.push(name);
        proof {
            lemma_key_set_push(before, name);
        }
    }
}

/// Works out how a task takes on the environment of the container whose
/// environment block is `block`, where the descriptor sets `desc_env`
/// (a later pair overriding an earlier one of the same key).
pub fn plan_env_import(desc_env: &Vec<(String, String)>, block: &str) -> (r: Result<
    EnvPlan,
    String,
>)
    ensures
        r is Ok <==> environ_well_formed(block@),
        r matches Err(e) ==> exists|j: int|
            0 <= j < nul_entries(block@).len() && find_char(nul_entries(block@)[j], '=') < 0
                && (forall|k: int| 0 <= k < j ==> find_char(#[trigger] nul_entries(block@)[k], '=') >= 0)
                && e@ == tagged("couldn't parse environ value "@ + nul_entries(block@)[j]),
        r matches Ok(p) ==> (p.unset_view() == unset_keys(
            assoc_map(pairs_view(desc_env@)),
            assoc_map(environ_vars(block@)),
        ) && p.set_view() == set_vars(
            assoc_map(pairs_view(desc_env@)),
            assoc_map(environ_vars(block@)),
        )),
{
    let cont = match parse_environ(block) {
        Ok(v) => v,
        Err(e) => {
            return Err(e);
        },
    };
    let ghost d = assoc_map(pairs_view(desc_env@));
    let ghost c = assoc_map(environ_vars(block@));
    let ghost dv = pairs_view(desc_env@);
    let ghost cv = pairs_view(cont@);

    let mut unset: Vec<String> = Vec::new();
    proof {
        reveal_strlit("LANG");
        reveal_strlit("LANGUAGE");
        reveal_strlit("LC_ALL");
    }
    push_unset_locale(&mut unset, desc_env, String::from_str("LANG"));
    push_unset_locale(&mut unset, desc_env, String::from_str("LANGUAGE"));
    push_unset_locale(&mut unset, desc_env, String::from_str("LC_ALL"));
    let ghost locale_keys = key_set(unset@);
    assert(locale_keys =~= Set::new(|k: Seq<char>| is_locale(k) && !defines(d, k)));

    let mut i: usize = 0;
    while i < desc_env.len()
        invariant
            0 <= i <= desc_env.len(),
            d == assoc_map(pairs_view(desc_env@)),
            dv == pairs_view(desc_env@),
            c == assoc_map(pairs_view(cont@)),
            key_set(unset@) == Set::new(
                |k: Seq<char>|
                    (is_locale(k) && !defines(d, k)) || (blanks(d, k) && c.contains_key(k)
                        && exists|j: int| 0 <= j < i && dv[j].0 == k),
            ),
        decreases desc_env.len() - i,
    {
        let ghost before = key_set(unset@);
        let ghost ki = dv[i as int].0;
        let key = &desc_env[i].0;
        match lookup(desc_env, key) {
            Some(j) => {
                if desc_env[j].1.unicode_len() == 0 && lookup(&cont, key).is_some() {
                    let ghost old_unset = unset@;
                    let k = key.clone();
                    unset.push(k);
                    proof {
                        lemma_key_set_push(old_unset, unset@.last());
                        assert(old_unset.push(unset@.last()) =~= unset@);
                    }
                }
            },
            None => {},
        }
        proof {
            assert(key_set(unset@) =~= Set::new(
                |k: Seq<char>|
                    (is_locale(k) && !defines(d, k)) || (blanks(d, k) && c.contains_key(k)
                        && exists|j: int| 0 <= j < i + 1 && dv[j].0 == k),
            )) by {
                assert forall|k: Seq<char>|
                    (blanks(d, k) && exists|j: int| 0 <= j < i + 1 && dv[j].0 == k) implies (
                    k == ki || exists|j: int| 0 <= j < i && dv[j].0 == k) by {
                    let j = choose|j: int| 0 <= j < i + 1 && dv[j].0 == k;
                    if j < i {
                    } else {
                        assert(k == ki);
                    }
                }
                assert(dv[i as int].0 == ki);
            }
        }
        i = i + 1;
    }
    proof {
        assert(key_set(unset@) =~= unset_keys(d, c)) by {
            assert forall|k: Seq<char>| blanks(d, k) implies exists|j: int|
                0 <= j < desc_env@.len() && dv[j].0 == k by {
                lemma_assoc_dom(dv, k);
            }
        }
    }

    let mut set: Vec<(String, String)> = Vec::new();
    let mut j: usize = 0;
    proof {
        assert(pairs_view(set@) =~= Seq::empty());
        assert(cv.subrange(0, 0) =~= Seq::empty());
        assert(container_part(assoc_map(Seq::empty()), d) =~= Map::empty());
    }
    while j < cont.len()
        invariant
            0 <= j <= cont.len(),
            d == assoc_map(pairs_view(desc_env@)),
            cv == pairs_view(cont@),
            assoc_map(pairs_view(set@)) == container_part(assoc_map(cv.subrange(0, j as int)), d),
        decreases cont.len() - j,
    {
        proof {
            lemma_assoc_prefix(cv, j as int);
        }
        let ghost kj = cv[j as int].0;
        let ghost vj = cv[j as int].1;
        let ghost prefix = assoc_map(cv.subrange(0, j as int));
        let key = &cont[j].0;
        let lang = String::from_str("LANG");
        let language = String::from_str("LANGUAGE");
        let lc_all = String::from_str("LC_ALL");
        let locale = *key == lang || *key == language || *key == lc_all;
        let mentioned = lookup(desc_env, key).is_some();
        if !mentioned && !locale {
            let ghost old_set = pairs_view(set@);
            set.push((cont[j].0.clone(), cont[j].1.clone()));
            proof {
                assert(pairs_view(set@) =~= old_set.push((kj, vj)));
                lemma_assoc_push(old_set, (kj, vj));
                assert(container_part(prefix.insert(kj, vj), d) =~= container_part(prefix, d).insert(
                    kj,
                    vj,
                ));
            }
        } else {
            assert(container_part(prefix.insert(kj, vj), d) =~= container_part(prefix, d));
        }
        j = j + 1;
    }
    proof {
        assert(cv.subrange(0, cont@.len() as int) =~= cv);
        assert(defined_part(assoc_map(dv.subrange(0, 0)), d, c) =~= Map::empty());
        assert(container_part(c, d).union_prefer_right(Map::empty()) =~= container_part(c, d));
    }

    let mut i: usize = 0;
    while i < desc_env.len()
        invariant
            0 <= i <= desc_env.len(),
            d == assoc_map(pairs_view(desc_env@)),
            dv == pairs_view(desc_env@),
            c == assoc_map(pairs_view(cont@)),
            assoc_map(pairs_view(set@)) == container_part(c, d).union_prefer_right(
                defined_part(assoc_map(dv.subrange(0, i as int)), d, c),
            ),
        decreases desc_env.len() - i,
    {
        proof {
            lemma_assoc_prefix(dv, i as int);
        }
        let ghost ki = dv[i as int].0;
        let ghost prefix = assoc_map(dv.subrange(0, i as int));
        let key = &desc_env[i].0;
        match lookup(desc_env, key) {
            Some(at) => {
                if desc_env[at].1.unicode_len() > 0 && lookup(&cont, key).is_some() {
                    let ghost old_set = pairs_view(set@);
                    let ghost vi = desc_env@[at as int].1@;
                    set.push((key.clone(), desc_env[at].1.clone()));
                    proof {
                        assert(pairs_view(set@) =~= old_set.push((ki, vi)));
                        lemma_assoc_push(old_set, (ki, vi));
                        assert(defined_part(prefix.insert(ki, vi), d, c) =~= defined_part(
                            prefix,
                            d,
                            c,
                        ).insert(ki, vi));
                        assert(container_part(c, d).union_prefer_right(
                            defined_part(prefix, d, c),
                        ).insert(ki, vi) =~= container_part(c, d).union_prefer_right(
                            defined_part(prefix, d, c).insert(ki, vi),
                        ));
                    }
                } else {
                    assert(defined_part(prefix.insert(ki, desc_env@[i as int].1@), d, c)
                        =~= defined_part(prefix, d, c));
                }
            },
            None => {},
        }
        i = i + 1;
    }
    proof {
        assert(dv.subrange(0, desc_env@.len() as int) =~= dv);
    }
    Ok(EnvPlan { unset, set })
}

/// Carrying out the plan gives the task the environment of the import
/// rule. For a key of the container: a value the descriptor gives wins, a
/// key it blanks ends unset, a locale variable it gives no value ends
/// unset, and any other key takes the container's value. A key the
/// container lacks keeps the task's own value, but a locale variable to
/// which the descriptor gives no value ends unset.
pub proof fn lemma_import_rule(
    env: Map<Seq<char>, Seq<char>>,
    d: Map<Seq<char>, Seq<char>>,
    c: Map<Seq<char>, Seq<char>>,
)
    ensures
        apply_env(env, unset_keys(d, c), set_vars(d, c)) == imported_env(env, d, c),
{
    assert(apply_env(env, unset_keys(d, c), set_vars(d, c)) =~= imported_env(env, d, c));
}

/// The import leaves alone every variable that the container lacks and
/// that is no locale variable.
pub proof fn lemma_untouched(
    env: Map<Seq<char>, Seq<char>>,
    d: Map<Seq<char>, Seq<char>>,
    c: Map<Seq<char>, Seq<char>>,
    k: Seq<char>,
)
    requires
        !c.contains_key(k),
        !is_locale(k),
    ensures
        apply_env(env, unset_keys(d, c), set_vars(d, c)).contains_key(k) == env.contains_key(k),
        env.contains_key(k) ==> apply_env(env, unset_keys(d, c), set_vars(d, c))[k] == env[k],
{
    lemma_import_rule(env, d, c);
}

/// A locale variable is absent after the import unless the descriptor gives
/// it a non-empty value, whatever the task and the container held.
pub proof fn lemma_locale_denied(
    env: Map<Seq<char>, Seq<char>>,
    d: Map<Seq<char>, Seq<char>>,
    c: Map<Seq<char>, Seq<char>>,
    k: Seq<char>,
)
    requires
        is_locale(k),
        !defines(d, k),
    ensures
        !apply_env(env, unset_keys(d, c), set_vars(d, c)).contains_key(k),
{
    lemma_import_rule(env, d, c);
}

/// A variable that the descriptor sets to the empty value is absent once
/// the task has removed the descriptor's blank keys and then imported the
/// container's environment, whatever the task and the container held.
pub proof fn lemma_blank_stays_unset(
    env: Map<Seq<char>, Seq<char>>,
    d: Map<Seq<char>, Seq<char>>,
    c: Map<Seq<char>, Seq<char>>,
    k: Seq<char>,
)
    requires
        blanks(d, k),
    ensures
        !apply_env(
            env.remove_keys(Set::new(|x: Seq<char>| blanks(d, x))),
            unset_keys(d, c),
            set_vars(d, c),
        ).contains_key(k),
{
    lemma_import_rule(env.remove_keys(Set::new(|x: Seq<char>| blanks(d, x))), d, c);
}

/// The keys that the descriptor asks to have unset: those whose value, the
/// last one given, is empty.
pub fn blank_keys(desc_env: &Vec<(String, String)>) -> (r: Vec<String>)
    ensures
        key_set(r@) == Set::new(|k: Seq<char>| blanks(assoc_map(pairs_view(desc_env@)), k)),
{
    let ghost d = assoc_map(pairs_view(desc_env@));
    let ghost dv = pairs_view(desc_env@);
    let mut keys: Vec<String> = Vec::new();
    let mut i: usize = 0;
    proof {
        assert(key_set(keys@) =~= Set::empty());
    }
    while i < desc_env.len()
        invariant
            0 <= i <= desc_env.len(),
            d == assoc_map(pairs_view(desc_env@)),
            dv == pairs_view(desc_env@),
            key_set(keys@) == Set::new(
                |k: Seq<char>| blanks(d, k) && exists|j: int| 0 <= j < i && dv[j].0 == k,
            ),
        decreases desc_env.len() - i,
    {
        let ghost ki = dv[i as int].0;
        let key = &desc_env[i].0;
        match lookup(desc_env, key) {
            Some(at) => {
                if desc_env[at].1.unicode_len() == 0 {
                    let ghost before = keys@;
                    let k = key.clone();
                    keys.push(k);
                    proof {
                        lemma_key_set_push(before, keys@.last());
                        assert(before.push(keys@.last()) =~= keys@);
                    }
                }
            },
            None => {},
        }
        proof {
            assert(key_set(keys@) =~= Set::new(
                |k: Seq<char>| blanks(d, k) && exists|j: int| 0 <= j < i + 1 && dv[j].0 == k,
            )) by {
                assert forall|k: Seq<char>|
                    (blanks(d, k) && exists|j: int| 0 <= j < i + 1 && dv[j].0 == k) implies (k
                    == ki || exists|j: int| 0 <= j < i && dv[j].0 == k) by {
                    let j = choose|j: int| 0 <= j < i + 1 && dv[j].0 == k;
                    if j == i {
                        assert(k == ki);
                    }
                }
                assert(dv[i as int].0 == ki);
            }
        }
        i = i + 1;
    }
    proof {
        assert forall|k: Seq<char>| blanks(d, k) implies exists|j: int|
            0 <= j < desc_env@.len() && dv[j].0 == k by {
            lemma_assoc_dom(dv, k);
        }
        assert(key_set(keys@) =~= Set::new(|k: Seq<char>| blanks(d, k)));
    }
    keys
}

} // verus!
