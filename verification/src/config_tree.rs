//! The configuration as a tree of keyed values, as it is written in its
//! file: reading and setting a value by a dotted key (`general.output_dir`,
//! `watchers.0.mode`), a new value taking the type of the one it replaces.

use vstd::prelude::*;
use crate::numeric::{decimal, parse_i64, parse_i64_spec, parse_usize, parse_usize_spec, to_decimal};
use crate::text::{cat, eq_str, from_chars, split_chars, split_on, to_chars};

verus! {

/// A value of the configuration's tree.
#[derive(Debug)]
pub enum ConfigTree {
    /// Keyed values, in order.
    Table(Vec<TreeEntry>),
    /// Values by position.
    Array(Vec<ConfigTree>),
    /// A text.
    Text(String),
    /// An integer.
    Integer(i64),
    /// A boolean.
    Boolean(bool),
    /// A value of another kind (such as a date), by its text.
    Other(String),
}

/// A key of a table with its value.
#[derive(Debug)]
pub struct TreeEntry {
    /// The key.
    pub key: String,
    /// The value.
    pub value: ConfigTree,
}

/// A tree as plain values.
pub enum TreeV {
    Table(Seq<(Seq<char>, TreeV)>),
    Array(Seq<TreeV>),
    Text(Seq<char>),
    Integer(i64),
    Boolean(bool),
    Other(Seq<char>),
}

impl ConfigTree {
    /// The tree as plain values.
    pub open spec fn tv(&self) -> TreeV
        decreases self,
    {
        match self {
            ConfigTree::Table(es) => TreeV::Table(
                Seq::new(
                    es@.len(),
                    |i: int|
                        if 0 <= i < es@.len() {
                            (es@[i].key@, es@[i].value.tv())
                        } else {
                            (Seq::empty(), TreeV::Boolean(false))
                        },
                ),
            ),
            ConfigTree::Array(items) => TreeV::Array(
                Seq::new(
                    items@.len(),
                    |i: int|
                        if 0 <= i < items@.len() {
                            items@[i].tv()
                        } else {
                            TreeV::Boolean(false)
                        },
                ),
            ),
            ConfigTree::Text(s) => TreeV::Text(s@),
            ConfigTree::Integer(n) => TreeV::Integer(*n),
            ConfigTree::Boolean(b) => TreeV::Boolean(*b),
            ConfigTree::Other(s) => TreeV::Other(s@),
        }
    }
}

/// A result of a tree operation as plain values.
pub open spec fn tree_result_view(r: Result<ConfigTree, String>) -> Result<TreeV, Seq<char>> {
    match r {
        Ok(t) => Ok(t.tv()),
        Err(e) => Err(e@),
    }
}

/// The position of the first entry with a key, or -1.
pub open spec fn first_key(es: Seq<(Seq<char>, TreeV)>, key: Seq<char>) -> int
    decreases es.len(),
{
    if es.len() == 0 {
        -1
    } else {
        let p = first_key(es.drop_last(), key);
        if p >= 0 {
            p
        } else if es.last().0 == key {
            es.len() - 1
        } else {
            -1
        }
    }
}

proof fn lemma_first_key_bounds(es: Seq<(Seq<char>, TreeV)>, key: Seq<char>)
    ensures
        -1 <= first_key(es, key) < es.len(),
        first_key(es, key) >= 0 ==> es[first_key(es, key)].0 == key,
    decreases es.len(),
{
    if es.len() > 0 {
        lemma_first_key_bounds(es.drop_last(), key);
    }
}

/// The value at a dotted key: each segment names a key of a table or a
/// position in an array. An error names the first step that fails.
pub open spec fn navigate_spec(t: TreeV, segs: Seq<Seq<char>>, path: Seq<char>) -> Result<
    TreeV,
    Seq<char>,
>
    decreases segs.len(),
{
    if segs.len() == 0 {
        Ok(t)
    } else {
        let seg = segs[0];
        let rest = segs.drop_first();
        match t {
            TreeV::Table(es) => {
                let p = first_key(es, seg);
                if 0 <= p < es.len() {
                    navigate_spec(es[p].1, rest, path)
                } else {
                    Err("key not found: "@ + path)
                }
            },
            TreeV::Array(items) => match parse_usize_spec(seg) {
                Some(i) => if (i as int) < items.len() {
                    navigate_spec(items[i as int], rest, path)
                } else {
                    Err("array index "@ + decimal(i as nat) + " out of bounds"@)
                },
                None => Err("expected array index, got: "@ + seg),
            },
            _ => Err("cannot navigate into "@ + seg + ": not a table or array"@),
        }
    }
}

/// The position of the first entry of a table with a key.
fn find_entry(es: &Vec<TreeEntry>, key: &[char]) -> (r: Option<usize>)
    ensures
        match r {
            Some(p) => p < es@.len() && first_key(ConfigTree::Table(*es).tv()->Table_0, key@)
                == p as int && es@[p as int].key@ == key@,
            None => first_key(ConfigTree::Table(*es).tv()->Table_0, key@) == -1,
        },
{
    let ghost all = ConfigTree::Table(*es).tv()->Table_0;
    let mut i: usize = 0;
    while i < es.len()
        invariant
            i <= es@.len(),
            all == ConfigTree::Table(*es).tv()->Table_0,
            all.len() == es@.len(),
            first_key(all.subrange(0, i as int), key@) == -1,
        decreases es.len() - i,
    {
        let ghost pre = all.subrange(0, i as int);
        assert(all.subrange(0, i + 1).drop_last() =~= pre);
        assert(all[i as int].0 == es@[i as int].key@);
        if eq_str(key, es[i].key.as_str()) {
            proof {
                lemma_first_key_prefix(all, key@, i as int);
            }
            return Some(i);
        }
        i = i + 1;
    }
    assert(all.subrange(0, es@.len() as int) =~= all);
    None
}

/// Once found in a prefix, the first position stays the same.
proof fn lemma_first_key_prefix(es: Seq<(Seq<char>, TreeV)>, key: Seq<char>, i: int)
    requires
        0 <= i < es.len(),
        first_key(es.subrange(0, i), key) == -1,
        es[i].0 == key,
    ensures
        first_key(es, key) == i,
    decreases es.len(),
{
    if es.len() - 1 == i {
        assert(es.drop_last() =~= es.subrange(0, i));
    } else {
        assert(es.drop_last().subrange(0, i) =~= es.subrange(0, i));
        lemma_first_key_prefix(es.drop_last(), key, i);
    }
}

/// The error text of a failed step: `prefix`, the characters, `suffix`.
fn step_error(prefix: &str, middle: &[char], suffix: &str) -> (r: String)
    ensures
        r@ == prefix@ + middle@ + suffix@,
{
    let m = from_chars(middle);
    cat(cat(prefix, m.as_str()).as_str(), suffix)
}

/// The value at a dotted key.
pub fn navigate_path<'a>(value: &'a ConfigTree, path: &str) -> (r: Result<&'a ConfigTree, String>)
    ensures
        match r {
            Ok(t) => navigate_spec(value.tv(), split_on(path@, '.'), path@) == Ok::<
                TreeV,
                Seq<char>,
            >(t.tv()),
            Err(e) => navigate_spec(value.tv(), split_on(path@, '.'), path@) == Err::<
                TreeV,
                Seq<char>,
            >(e@),
        },
{
    let pc = to_chars(path);
    let segs = split_chars(&pc, '.');
    let ghost all = split_on(path@, '.');
    let mut current: &'a ConfigTree = value;
    let mut i: usize = 0;
    assert(all.subrange(0, all.len() as int) =~= all);
    while i < segs.len()
        invariant
            pc@ == path@,
            all == split_on(path@, '.'),
            segs@.len() == all.len(),
            forall|k: int| 0 <= k < segs@.len() ==> (#[trigger] segs@[k])@ == all[k],
            i <= segs@.len(),
            navigate_spec(value.tv(), all, path@) == navigate_spec(
                current.tv(),
                all.subrange(i as int, all.len() as int),
                path@,
            ),
        decreases segs.len() - i,
    {
        let ghost rest = all.subrange(i as int, all.len() as int);
        assert(rest[0] == segs@[i as int]@);
        assert(rest.drop_first() =~= all.subrange(i + 1, all.len() as int));
        let seg = &segs[i];
        match current {
            ConfigTree::Table(es) => {
                match find_entry(es, seg) {
                    Some(p) => {
                        proof {
                            let tv = ConfigTree::Table(*es).tv()->Table_0;
                            assert(tv[p as int].1 == es@[p as int].value.tv());
                        }
                        current = &es[p].value;
                    },
                    None => {
                        return Err(cat("key not found: ", path));
                    },
                }
            },
            ConfigTree::Array(items) => {
                match parse_usize(seg) {
                    Some(idx) => {
                        if idx < items.len() {
                            current = &items[idx];
                        } else {
                            let digits = to_decimal(idx as u64);
                            return Err(step_error("array index ", &digits, " out of bounds"));
                        }
                    },
                    None => {
                        return Err(cat("expected array index, got: ", from_chars(seg).as_str()));
                    },
                }
            },
            _ => {
                return Err(step_error("cannot navigate into ", seg, ": not a table or array"));
            },
        }
        i = i + 1;
    }
    assert(all.subrange(all.len() as int, all.len() as int) =~= Seq::<Seq<char>>::empty());
    Ok(current)
}

/// A text given for a value that replaces `existing`, in the type of
/// `existing`: an integer or a boolean must parse as one; anything else
/// becomes text.
pub open spec fn coerce_spec(val: Seq<char>, existing: TreeV) -> Result<TreeV, Seq<char>> {
    match existing {
        TreeV::Integer(_) => match parse_i64_spec(val) {
            Some(n) => Ok(TreeV::Integer(n)),
            None => Err("expected integer, got: "@ + val),
        },
        TreeV::Boolean(_) => if val == "true"@ {
            Ok(TreeV::Boolean(true))
        } else if val == "false"@ {
            Ok(TreeV::Boolean(false))
        } else {
            Err("expected boolean, got: "@ + val)
        },
        _ => Ok(TreeV::Text(val)),
    }
}

/// A text given for a value, in the type of the value it replaces.
pub fn coerce_value(val: &String, existing: &ConfigTree) -> (r: Result<ConfigTree, String>)
    ensures
        tree_result_view(r) == coerce_spec(val@, existing.tv()),
{
    let vc = to_chars(val.as_str());
    match existing {
        ConfigTree::Integer(_) => match parse_i64(&vc) {
            Some(n) => Ok(ConfigTree::Integer(n)),
            None => Err(cat("expected integer, got: ", val.as_str())),
        },
        ConfigTree::Boolean(_) => {
            if eq_str(&vc, "true") {
                Ok(ConfigTree::Boolean(true))
            } else if eq_str(&vc, "false") {
                Ok(ConfigTree::Boolean(false))
            } else {
                Err(cat("expected boolean, got: ", val.as_str()))
            }
        },
        _ => Ok(ConfigTree::Text(val.clone())),
    }
}

/// The tree with the value at `parents` then `leaf` set to `val`: the
/// parents are followed as when reading; the leaf's parent must be a table;
/// an existing leaf gets `val` in its own type, a new one gets it as text.
pub open spec fn set_spec(t: TreeV, parents: Seq<Seq<char>>, leaf: Seq<char>, val: Seq<char>) -> Result<
    TreeV,
    Seq<char>,
>
    decreases parents.len(),
{
    if parents.len() == 0 {
        match t {
            TreeV::Table(es) => {
                let p = first_key(es, leaf);
                if 0 <= p < es.len() {
                    match coerce_spec(val, es[p].1) {
                        Ok(nv) => Ok(TreeV::Table(es.update(p, (leaf, nv)))),
                        Err(e) => Err(e),
                    }
                } else {
                    Ok(TreeV::Table(es.push((leaf, TreeV::Text(val)))))
                }
            },
            _ => Err("parent of "@ + leaf + " is not a table"@),
        }
    } else {
        let seg = parents[0];
        let rest = parents.drop_first();
        match t {
            TreeV::Table(es) => {
                let p = first_key(es, seg);
                if 0 <= p < es.len() {
                    match set_spec(es[p].1, rest, leaf, val) {
                        Ok(c) => Ok(TreeV::Table(es.update(p, (seg, c)))),
                        Err(e) => Err(e),
                    }
                } else {
                    Err("key not found: "@ + seg)
                }
            },
            TreeV::Array(items) => match parse_usize_spec(seg) {
                Some(i) => if (i as int) < items.len() {
                    match set_spec(items[i as int], rest, leaf, val) {
                        Ok(c) => Ok(TreeV::Array(items.update(i as int, c))),
                        Err(e) => Err(e),
                    }
                } else {
                    Err("array index "@ + decimal(i as nat) + " out of bounds"@)
                },
                None => Err("expected array index, got: "@ + seg),
            },
            _ => Err("cannot navigate into "@ + seg + ": not a table or array"@),
        }
    }
}

/// Sets the value at `segs[idx..]` (parents, then the leaf) in `tree`.
fn set_in(tree: ConfigTree, segs: &Vec<Vec<char>>, idx: usize, val: &String) -> (r: Result<
    ConfigTree,
    String,
>)
    requires
        idx < segs@.len(),
    ensures
        tree_result_view(r) == set_spec(
            tree.tv(),
            segs@.subrange(idx as int, segs@.len() - 1).map_values(|s: Vec<char>| s@),
            segs@[segs@.len() - 1]@,
            val@,
        ),
    decreases segs@.len() - idx,
{
    let ghost parents = segs@.subrange(idx as int, segs@.len() - 1).map_values(|s: Vec<char>| s@);
    let ghost leaf = segs@[segs@.len() - 1]@;
    let ghost tv = tree.tv();
    if idx == segs.len() - 1 {
        assert(parents.len() == 0);
        let leaf_chars = &segs[idx];
        match tree {
            ConfigTree::Table(mut es) => {
                let ghost old_es = es@;
                let ghost old_view = tv->Table_0;
                match find_entry(&es, leaf_chars) {
                    Some(p) => {
                        let entry = es.remove(p);
                        match coerce_value(val, &entry.value) {
                            Ok(nv) => {
                                let key = entry.key;
                                es.insert(p, TreeEntry { key, value: nv });
                                let r = ConfigTree::Table(es);
                                proof {
                                    assert(old_view[p as int].1 == old_es[p as int].value.tv());
                                    assert(old_view[p as int].0 == leaf);
                                    let nvw = r.tv()->Table_0;
                                    assert(nvw =~= old_view.update(p as int, (leaf, nv.tv()))) by {
                                        assert forall|k: int| 0 <= k < nvw.len() implies nvw[k]
                                            == old_view.update(p as int, (leaf, nv.tv()))[k] by {
                                            if k != p as int {
                                                assert(es@[k] == old_es[k]);
                                            }
                                        }
                                    }
                                }
                                Ok(r)
                            },
                            Err(e) => {
                                proof {
                                    assert(old_view[p as int].1 == old_es[p as int].value.tv());
                                }
                                Err(e)
                            },
                        }
                    },
                    None => {
                        let ghost before = es@;
                        let key = from_chars(leaf_chars);
                        let text = val.clone();
                        let added = TreeEntry { key, value: ConfigTree::Text(text) };
                        assert(added.key@ == leaf && added.value.tv() == TreeV::Text(val@));
                        es.push(added);
                        let r = ConfigTree::Table(es);
                        proof {
                            let nvw = r.tv()->Table_0;
                            assert(nvw =~= old_view.push((leaf, TreeV::Text(val@)))) by {
                                assert forall|k: int| 0 <= k < nvw.len() implies nvw[k]
                                    == old_view.push((leaf, TreeV::Text(val@)))[k] by {
                                    if k < before.len() {
                                        assert(es@[k] == before[k]);
                                    } else {
                                        assert(es@[k] == added);
                                    }
                                }
                            }
                        }
                        Ok(r)
                    },
                }
            },
            _ => Err(step_error("parent of ", leaf_chars, " is not a table")),
        }
    } else {
        let seg = &segs[idx];
        proof {
            assert(parents[0] == seg@);
            assert(parents.drop_first() =~= segs@.subrange(idx + 1, segs@.len() - 1).map_values(
                |s: Vec<char>| s@,
            ));
        }
        match tree {
            ConfigTree::Table(mut es) => {
                let ghost old_es = es@;
                let ghost old_view = tv->Table_0;
                match find_entry(&es, seg) {
                    Some(p) => {
                        let entry = es.remove(p);
                        proof {
                            assert(old_view[p as int].1 == entry.value.tv());
                            assert(old_view[p as int].0 == seg@);
                        }
                        match set_in(entry.value, segs, idx + 1, val) {
                            Ok(c) => {
                                let ghost cv = c.tv();
                                es.insert(p, TreeEntry { key: entry.key, value: c });
                                let r = ConfigTree::Table(es);
                                proof {
                                    let nvw = r.tv()->Table_0;
                                    assert(nvw =~= old_view.update(p as int, (seg@, cv))) by {
                                        assert forall|k: int| 0 <= k < nvw.len() implies nvw[k]
                                            == old_view.update(p as int, (seg@, cv))[k] by {
                                            if k != p as int {
                                                assert(es@[k] == old_es[k]);
                                            }
                                        }
                                    }
                                }
                                Ok(r)
                            },
                            Err(e) => Err(e),
                        }
                    },
                    None => Err(cat("key not found: ", from_chars(seg).as_str())),
                }
            },
            ConfigTree::Array(mut items) => {
                let ghost old_items = items@;
                let ghost old_view = tv->Array_0;
                match parse_usize(seg) {
                    Some(i) => {
                        if i < items.len() {
                            let item = items.remove(i);
                            proof {
                                assert(old_view[i as int] == item.tv());
                            }
                            match set_in(item, segs, idx + 1, val) {
                                Ok(c) => {
                                    let ghost cv = c.tv();
                                    items.insert(i, c);
                                    let r = ConfigTree::Array(items);
                                    proof {
                                        let nvw = r.tv()->Array_0;
                                        assert(nvw =~= old_view.update(i as int, cv)) by {
                                            assert forall|k: int| 0 <= k < nvw.len() implies nvw[k]
                                                == old_view.update(i as int, cv)[k] by {
                                                if k != i as int {
                                                    assert(items@[k] == old_items[k]);
                                                }
                                            }
                                        }
                                    }
                                    Ok(r)
                                },
                                Err(e) => Err(e),
                            }
                        } else {
                            let digits = to_decimal(i as u64);
                            Err(step_error("array index ", &digits, " out of bounds"))
                        }
                    },
                    None => Err(cat("expected array index, got: ", from_chars(seg).as_str())),
                }
            },
            _ => Err(step_error("cannot navigate into ", seg, ": not a table or array")),
        }
    }
}

/// The tree with the value at a dotted key set to `val`.
pub fn set_path(root: ConfigTree, path: &str, val: &String) -> (r: Result<ConfigTree, String>)
    ensures
        tree_result_view(r) == set_spec(
            root.tv(),
            split_on(path@, '.').drop_last(),
            split_on(path@, '.').last(),
            val@,
        ),
{
    let pc = to_chars(path);
    let segs = split_chars(&pc, '.');
    proof {
        crate::text::lemma_split_nonempty(path@, '.');
        let all = split_on(path@, '.');
        assert(segs@.subrange(0, segs@.len() - 1).map_values(|s: Vec<char>| s@) =~= all.drop_last());
    }
    set_in(root, &segs, 0, val)
}

/// Updating the entry at the first position of a key keeps it the first.
proof fn lemma_first_key_update(es: Seq<(Seq<char>, TreeV)>, key: Seq<char>, p: int, v: TreeV)
    requires
        0 <= p < es.len(),
        first_key(es, key) == p,
    ensures
        first_key(es.update(p, (key, v)), key) == p,
    decreases es.len(),
{
    lemma_first_key_bounds(es, key);
    let us = es.update(p, (key, v));
    if p == es.len() - 1 {
        assert(us.drop_last() =~= es.drop_last());
        if first_key(es.drop_last(), key) >= 0 {
            lemma_first_key_bounds(es.drop_last(), key);
        }
    } else {
        lemma_first_key_bounds(es.drop_last(), key);
        assert(us.drop_last() =~= es.drop_last().update(p, (key, v)));
        lemma_first_key_update(es.drop_last(), key, p, v);
    }
}

/// A key that was missing is found at the end once appended.
proof fn lemma_first_key_push(es: Seq<(Seq<char>, TreeV)>, key: Seq<char>, v: TreeV)
    requires
        first_key(es, key) == -1,
    ensures
        first_key(es.push((key, v)), key) == es.len(),
{
    assert(es.push((key, v)).drop_last() =~= es);
}

/// What reading a key gives after setting it to `val`: the old value
/// coerced to `val` in its type when the key was there, else `val` as text.
pub open spec fn read_after_set(t: TreeV, parents: Seq<Seq<char>>, leaf: Seq<char>, val: Seq<char>, path: Seq<char>) -> TreeV {
    match navigate_spec(t, parents.push(leaf), path) {
        Ok(old) => coerce_spec(val, old)->Ok_0,
        Err(_) => TreeV::Text(val),
    }
}

/// A value that was set is read back: after a successful set of `val` at
/// a dotted key, reading that key gives `val` (as text, or in the integer
/// or boolean type of the value it replaced).
pub proof fn law_set_then_read(
    t: TreeV,
    parents: Seq<Seq<char>>,
    leaf: Seq<char>,
    val: Seq<char>,
    path: Seq<char>,
)
    requires
        set_spec(t, parents, leaf, val) is Ok,
    ensures
        navigate_spec(set_spec(t, parents, leaf, val)->Ok_0, parents.push(leaf), path) == Ok::<
            TreeV,
            Seq<char>,
        >(read_after_set(t, parents, leaf, val, path)),
    decreases parents.len(),
{
    let segs = parents.push(leaf);
    assert(segs[0] == if parents.len() == 0 { leaf } else { parents[0] });
    if parents.len() == 0 {
        assert(segs.drop_first() =~= Seq::<Seq<char>>::empty());
        match t {
            TreeV::Table(es) => {
                let p = first_key(es, leaf);
                lemma_first_key_bounds(es, leaf);
                if 0 <= p < es.len() {
                    let nv = coerce_spec(val, es[p].1)->Ok_0;
                    lemma_first_key_update(es, leaf, p, nv);
                    let us = es.update(p, (leaf, nv));
                    assert(navigate_spec(es[p].1, segs.drop_first(), path) == Ok::<TreeV, Seq<char>>(es[p].1));
                    assert(navigate_spec(us[p].1, segs.drop_first(), path) == Ok::<TreeV, Seq<char>>(nv));
                    assert(navigate_spec(t, segs, path) == Ok::<TreeV, Seq<char>>(es[p].1));
                    assert(navigate_spec(TreeV::Table(us), segs, path) == Ok::<TreeV, Seq<char>>(nv));
                } else {
                    lemma_first_key_push(es, leaf, TreeV::Text(val));
                    let us = es.push((leaf, TreeV::Text(val)));
                    assert(navigate_spec(us[es.len() as int].1, segs.drop_first(), path) == Ok::<TreeV, Seq<char>>(TreeV::Text(val)));
                    assert(navigate_spec(TreeV::Table(us), segs, path) == Ok::<TreeV, Seq<char>>(TreeV::Text(val)));
                    assert(navigate_spec(t, segs, path) is Err);
                }
            },
            _ => {},
        }
    } else {
        let seg = parents[0];
        let rest = parents.drop_first();
        assert(segs.drop_first() =~= rest.push(leaf));
        match t {
            TreeV::Table(es) => {
                let p = first_key(es, seg);
                lemma_first_key_bounds(es, seg);
                let c = set_spec(es[p].1, rest, leaf, val)->Ok_0;
                law_set_then_read(es[p].1, rest, leaf, val, path);
                lemma_first_key_update(es, seg, p, c);
                let us = es.update(p, (seg, c));
                assert(us[p].1 == c);
                assert(navigate_spec(TreeV::Table(us), segs, path) == navigate_spec(c, rest.push(leaf), path));
                assert(navigate_spec(t, segs, path) == navigate_spec(es[p].1, rest.push(leaf), path));
            },
            TreeV::Array(items) => {
                let i = parse_usize_spec(seg)->Some_0;
                law_set_then_read(items[i as int], rest, leaf, val, path);
                let c = set_spec(items[i as int], rest, leaf, val)->Ok_0;
                let us = items.update(i as int, c);
                assert(navigate_spec(TreeV::Array(us), segs, path) == navigate_spec(c, rest.push(leaf), path));
                assert(navigate_spec(t, segs, path) == navigate_spec(items[i as int], rest.push(leaf), path));
            },
            _ => {},
        }
    }
}

} // verus!
