//! The configuration document as a tree of tables: what a configuration
//! file gives once parsed, and what the `-D` overrides are written into.

use vstd::prelude::*;

verus! {

/// A node of the configuration document.
#[derive(Debug)]
pub enum ConfigNode {
    /// A table: its entries, each key once.
    Table(Vec<(String, ConfigNode)>),
    /// Any other value, with the name of its type (`string`, `integer`,
    /// `float`, `boolean`, `datetime` or `array`).
    Leaf(String, toml::Value),
}

/// A node seen as keys, tables and values.
pub enum NodeView {
    Table(Seq<(Seq<char>, NodeView)>),
    Leaf(Seq<char>, toml::Value),
}

/// The view of a node.
pub open spec fn node_view(n: ConfigNode) -> NodeView
    decreases n,
{
    match n {
        ConfigNode::Leaf(kind, v) => NodeView::Leaf(kind@, v),
        ConfigNode::Table(es) => NodeView::Table(entries_view(es@)),
    }
}

/// The view of the entries of a table.
pub open spec fn entries_view(es: Seq<(String, ConfigNode)>) -> Seq<(Seq<char>, NodeView)>
    decreases es,
{
    if es.len() == 0 {
        seq![]
    } else {
        entries_view(es.drop_last()).push((es.last().0@, node_view(es.last().1)))
    }
}

/// The entries' view, entry by entry.
pub proof fn lemma_entries_view(es: Seq<(String, ConfigNode)>)
    ensures
        entries_view(es).len() == es.len(),
        forall|i: int| 0 <= i < es.len() ==> #[trigger] entries_view(es)[i] == (es[i].0@, node_view(es[i].1)),
    decreases es.len(),
{
    if es.len() > 0 {
        lemma_entries_view(es.drop_last());
        assert forall|i: int| 0 <= i < es.len() implies #[trigger] entries_view(es)[i] == (
            es[i].0@,
            node_view(es[i].1),
        ) by {
            if i < es.len() - 1 {
                assert(es.drop_last()[i] == es[i]);
            }
        }
    }
}

/// The tree of a TOML document, as `toml::from_str` reads it; `None` when
/// the text is not TOML.
pub uninterp spec fn parsed_tree(doc: Seq<char>) -> Option<ConfigNode>;

/// The node of a TOML value: its tables as tables, anything else as a
/// value with its type name (`Value::type_str`).
#[verifier::external_body]
fn node_of(v: toml::Value) -> ConfigNode {
    match v {
        toml::Value::Table(t) => {
            let mut es = Vec::new();
            for (k, x) in t {
                es.push((k, node_of(x)));
            }
            ConfigNode::Table(es)
        },
        other => ConfigNode::Leaf(other.type_str().to_owned(), other),
    }
}

/// Parses a TOML document (`toml::from_str` into a `toml::Value`) into
/// its tree; the tree is named [`parsed_tree`], and a document is always a
/// table.
#[verifier::external_body]
pub(crate) fn toml_parse_tree(doc: &str) -> (r: Option<ConfigNode>)
    ensures
        r == parsed_tree(doc@),
        r matches Some(n) ==> n is Table,
{
    toml::from_str::<toml::Value>(doc).ok().map(node_of)
}

/// A copy of a TOML value (`Value::clone`), equal to it.
#[verifier::external_body]
fn toml_clone(v: &toml::Value) -> (r: toml::Value)
    ensures
        r == *v,
{
    v.clone()
}

/// A copy of a node.
pub fn copy_node(n: &ConfigNode) -> (r: ConfigNode)
    ensures
        node_view(r) == node_view(*n),
    decreases n,
{
    match n {
        ConfigNode::Leaf(kind, v) => ConfigNode::Leaf(kind.clone(), toml_clone(v)),
        ConfigNode::Table(es) => {
            let mut out: Vec<(String, ConfigNode)> = Vec::new();
            let mut k: usize = 0;
            while k < es.len()
                invariant
                    k <= es@.len(),
                    *n == ConfigNode::Table(*es),
                    entries_view(out@) == entries_view(es@.take(k as int)),
                decreases es@.len() - k,
            {
                proof {
                    assert(decreases_to!(*n => (*n)->Table_0));
                    assert((*n)->Table_0 == *es);
                    assert(decreases_to!(*es => es@));
                    assert(decreases_to!(es@ => es@[k as int]));
                    assert(decreases_to!(es@[k as int] => es@[k as int].1));
                }
                let child = copy_node(&es[k].1);
                let ghost before = out@;
                out.push((es[k].0.clone(), child));
                proof {
                    assert(out@.drop_last() =~= before);
                    assert(es@.take(k + 1).drop_last() =~= es@.take(k as int));
                }
                k = k + 1;
            }
            proof {
                assert(es@.take(es@.len() as int) =~= es@);
            }
            ConfigNode::Table(out)
        },
    }
}

/// The position of the first entry of `key`, if any.
pub open spec fn key_pos(es: Seq<(Seq<char>, NodeView)>, key: Seq<char>) -> Option<int>
    decreases es.len(),
{
    if es.len() == 0 {
        None
    } else if es[0].0 == key {
        Some(0)
    } else {
        match key_pos(es.drop_first(), key) {
            Some(i) => Some(i + 1),
            None => None,
        }
    }
}

/// `key_pos` is the first entry of the key.
pub proof fn lemma_key_pos(es: Seq<(Seq<char>, NodeView)>, key: Seq<char>, k: int)
    requires
        0 <= k <= es.len(),
        k < es.len() ==> es[k].0 == key,
        forall|j: int| 0 <= j < k ==> es[j].0 != key,
    ensures
        key_pos(es, key) == (if k < es.len() {
            Some(k)
        } else {
            None::<int>
        }),
    decreases k,
{
    if k > 0 {
        lemma_key_pos(es.drop_first(), key, k - 1);
    }
}

/// A key is found where it is.
pub proof fn lemma_key_pos_found(es: Seq<(Seq<char>, NodeView)>, key: Seq<char>)
    ensures
        key_pos(es, key) matches Some(i) ==> 0 <= i < es.len() && es[i].0 == key,
    decreases es.len(),
{
    if es.len() > 0 {
        lemma_key_pos_found(es.drop_first(), key);
    }
}

/// The position of a key depends on the keys alone.
pub proof fn lemma_key_pos_same_keys(a: Seq<(Seq<char>, NodeView)>, b: Seq<(Seq<char>, NodeView)>, key: Seq<char>)
    requires
        a.len() == b.len(),
        forall|j: int| 0 <= j < a.len() ==> #[trigger] a[j].0 == b[j].0,
    ensures
        key_pos(a, key) == key_pos(b, key),
    decreases a.len(),
{
    if a.len() > 0 {
        assert forall|j: int| 0 <= j < a.drop_first().len() implies #[trigger] a.drop_first()[j].0
            == b.drop_first()[j].0 by {
            assert(a[j + 1].0 == b[j + 1].0);
        }
        lemma_key_pos_same_keys(a.drop_first(), b.drop_first(), key);
        assert(a[0].0 == b[0].0);
    }
}

/// The entries with `key` set to `n`: in place when the key is there, at
/// the end otherwise (`Map::insert`).
pub open spec fn upsert(es: Seq<(Seq<char>, NodeView)>, key: Seq<char>, n: NodeView) -> Seq<
    (Seq<char>, NodeView),
> {
    match key_pos(es, key) {
        Some(i) => es.update(i, (key, n)),
        None => es.push((key, n)),
    }
}

/// The node at `key`, or an empty table when there is none
/// (`entry(..).or_insert_with(..)`).
pub open spec fn child_or_empty(es: Seq<(Seq<char>, NodeView)>, key: Seq<char>) -> NodeView {
    match key_pos(es, key) {
        Some(i) => es[i].1,
        None => NodeView::Table(seq![]),
    }
}

/// The text of a list, separated by `sep`.
pub open spec fn joined(s: Seq<Seq<char>>, sep: Seq<char>) -> Seq<char> {
    crate::cli::settings::join(s, sep)
}

/// The message when the document is not a table.
pub open spec fn root_message(key_path: Seq<char>) -> Seq<char> {
    "cannot override `"@ + key_path + "`: the configuration is not a table."@
}

/// The message when a key on the path holds a value that is not a table.
pub open spec fn not_table_message(key_path: Seq<char>, prefix: Seq<char>, kind: Seq<char>) -> Seq<char> {
    "cannot override `"@ + key_path + "`: `"@ + prefix + "` is a "@ + kind + ", not a table."@
}

/// Writing `leaf` at the end of `path`, from its segment `depth` on, into
/// `node`: the tables on the way are created when missing; a value on the
/// way that is not a table is an error.
pub open spec fn applied(node: NodeView, path: Seq<Seq<char>>, depth: int, leaf: NodeView, key_path: Seq<char>) -> Result<
    NodeView,
    Seq<char>,
>
    decreases path.len() - depth,
{
    match node {
        NodeView::Leaf(_, _) => Err(root_message(key_path)),
        NodeView::Table(es) => if depth >= path.len() - 1 {
            Ok(NodeView::Table(upsert(es, path[depth], leaf)))
        } else {
            let child = child_or_empty(es, path[depth]);
            match child {
                NodeView::Leaf(kind, _) => Err(
                    not_table_message(key_path, joined(path.take(depth + 1), "."@), kind),
                ),
                NodeView::Table(_) => match applied(child, path, depth + 1, leaf, key_path) {
                    Ok(c) => Ok(NodeView::Table(upsert(es, path[depth], c))),
                    Err(m) => Err(m),
                },
            }
        },
    }
}

/// The node at the end of `path`, from its segment `depth` on: `None` when
/// a key is missing, or when a value that is not a table stands on the way.
pub open spec fn lookup(node: NodeView, path: Seq<Seq<char>>, depth: int) -> Option<NodeView>
    decreases path.len() - depth,
{
    if depth >= path.len() {
        Some(node)
    } else {
        match node {
            NodeView::Leaf(_, _) => None,
            NodeView::Table(es) => match key_pos(es, path[depth]) {
                Some(i) => lookup(es[i].1, path, depth + 1),
                None => None,
            },
        }
    }
}

/// `key_pos` finds the first entry of the key, and misses only a key that
/// is not there.
pub proof fn lemma_key_pos_first(es: Seq<(Seq<char>, NodeView)>, key: Seq<char>)
    ensures
        key_pos(es, key) matches Some(i) ==> 0 <= i < es.len() && es[i].0 == key && forall|j: int|
            0 <= j < i ==> #[trigger] es[j].0 != key,
        key_pos(es, key) is None ==> forall|j: int| 0 <= j < es.len() ==> #[trigger] es[j].0 != key,
    decreases es.len(),
{
    if es.len() > 0 {
        let t = es.drop_first();
        lemma_key_pos_first(t, key);
        assert forall|j: int| 1 <= j < es.len() implies #[trigger] es[j].0 == t[j - 1].0 by {}
    }
}

/// After an upsert, the key reads the node written, and every other key
/// is found where it was, with the same entry.
pub proof fn lemma_upsert_reads(es: Seq<(Seq<char>, NodeView)>, key: Seq<char>, n: NodeView)
    ensures
        key_pos(upsert(es, key, n), key) matches Some(j) && 0 <= j < upsert(es, key, n).len()
            && upsert(es, key, n)[j] == (key, n),
        forall|k: Seq<char>|
            k != key ==> key_pos(#[trigger] upsert(es, key, n), k) == key_pos(es, k) && (key_pos(es, k) matches Some(
                i,
            ) ==> upsert(es, key, n)[i] == es[i]),
{
    lemma_key_pos_first(es, key);
    let u = upsert(es, key, n);
    match key_pos(es, key) {
        Some(i) => {
            lemma_key_pos(u, key, i);
            assert forall|k: Seq<char>| k != key implies #[trigger] key_pos(upsert(es, key, n), k)
                == key_pos(es, k) && (key_pos(es, k) matches Some(i2) ==> upsert(es, key, n)[i2]
                == es[i2]) by {
                assert forall|j: int| 0 <= j < es.len() implies #[trigger] es[j].0 == u[j].0 by {}
                lemma_key_pos_same_keys(es, u, k);
                lemma_key_pos_first(es, k);
            }
        },
        None => {
            lemma_key_pos(u, key, es.len() as int);
            assert forall|k: Seq<char>| k != key implies #[trigger] key_pos(upsert(es, key, n), k)
                == key_pos(es, k) && (key_pos(es, k) matches Some(i2) ==> upsert(es, key, n)[i2]
                == es[i2]) by {
                lemma_key_pos_first(es, k);
                match key_pos(es, k) {
                    Some(i2) => lemma_key_pos(u, k, i2),
                    None => lemma_key_pos(u, k, u.len() as int),
                }
            }
        },
    }
}

/// What `applied` wrote at the end of the path is what the path reads.
pub proof fn lemma_applied_reads(node: NodeView, path: Seq<Seq<char>>, depth: int, leaf: NodeView, key_path: Seq<char>)
    requires
        0 <= depth < path.len(),
        applied(node, path, depth, leaf, key_path) is Ok,
    ensures
        lookup(applied(node, path, depth, leaf, key_path)->Ok_0, path, depth) == Some(leaf),
    decreases path.len() - depth,
{
    match node {
        NodeView::Leaf(_, _) => {
            assert(applied(node, path, depth, leaf, key_path) is Err);
        },
        NodeView::Table(es) => {
            if depth >= path.len() - 1 {
                lemma_upsert_reads(es, path[depth], leaf);
                let u = upsert(es, path[depth], leaf);
                assert(applied(node, path, depth, leaf, key_path)->Ok_0 == NodeView::Table(u));
                let j = key_pos(u, path[depth])->Some_0;
                assert(lookup(u[j].1, path, depth + 1) == Some(leaf));
                assert(lookup(NodeView::Table(u), path, depth) == Some(leaf));
            } else {
                let child = child_or_empty(es, path[depth]);
                lemma_applied_reads(child, path, depth + 1, leaf, key_path);
                let c = applied(child, path, depth + 1, leaf, key_path)->Ok_0;
                lemma_upsert_reads(es, path[depth], c);
                let u = upsert(es, path[depth], c);
                assert(applied(node, path, depth, leaf, key_path)->Ok_0 == NodeView::Table(u));
                assert(lookup(NodeView::Table(u), path, depth) == Some(leaf));
            }
        },
    }
}

/// `applied` from the root leaves every path that starts at another key
/// reading as it did.
pub proof fn lemma_applied_keeps_others(
    node: NodeView,
    path: Seq<Seq<char>>,
    leaf: NodeView,
    key_path: Seq<char>,
    q: Seq<Seq<char>>,
)
    requires
        0 < path.len(),
        0 < q.len(),
        q[0] != path[0],
        applied(node, path, 0, leaf, key_path) is Ok,
    ensures
        lookup(applied(node, path, 0, leaf, key_path)->Ok_0, q, 0) == lookup(node, q, 0),
{
    match node {
        NodeView::Leaf(_, _) => {},
        NodeView::Table(es) => {
            if 0 >= path.len() - 1 {
                lemma_upsert_reads(es, path[0], leaf);
                assert(key_pos(upsert(es, path[0], leaf), q[0]) == key_pos(es, q[0]));
            } else {
                let child = child_or_empty(es, path[0]);
                let c = applied(child, path, 1, leaf, key_path)->Ok_0;
                lemma_upsert_reads(es, path[0], c);
                assert(key_pos(upsert(es, path[0], c), q[0]) == key_pos(es, q[0]));
            }
        },
    }
}

/// The position of the entry of `key`.
pub(crate) fn key_position(es: &Vec<(String, ConfigNode)>, key: &str) -> (r: Option<usize>)
    ensures
        match r {
            Some(i) => key_pos(entries_view(es@), key@) == Some(i as int) && i < es@.len(),
            None => key_pos(entries_view(es@), key@) is None,
        },
{
    proof {
        lemma_entries_view(es@);
    }
    let kc = crate::text::chars_of(key);
    let mut k: usize = 0;
    while k < es.len()
        invariant
            k <= es@.len(),
            kc@ == key@,
            entries_view(es@).len() == es@.len(),
            forall|i: int| 0 <= i < es@.len() ==> #[trigger] entries_view(es@)[i] == (es@[i].0@, node_view(es@[i].1)),
            forall|j: int| 0 <= j < k ==> entries_view(es@)[j].0 != key@,
        decreases es@.len() - k,
    {
        if crate::text::chars_equal(&crate::text::chars_of(es[k].0.as_str()), &kc) {
            proof {
                lemma_key_pos(entries_view(es@), key@, k as int);
            }
            return Some(k);
        }
        k = k + 1;
    }
    proof {
        lemma_key_pos(entries_view(es@), key@, k as int);
    }
    None
}

/// Sets the entry of `key` to `n` (`Map::insert`).
fn upsert_entry(es: &mut Vec<(String, ConfigNode)>, key: String, n: ConfigNode)
    ensures
        entries_view(final(es)@) == upsert(entries_view(old(es)@), key@, node_view(n)),
{
    proof {
        lemma_entries_view(es@);
    }
    let ghost before = entries_view(es@);
    let ghost kv = key@;
    let ghost nv = node_view(n);
    let pos = key_position(es, key.as_str());
    match pos {
        Some(i) => {
            assert(key_pos(before, kv) == Some(i as int));
            es.set(i, (key, n));
            proof {
                lemma_entries_view(es@);
                assert(entries_view(es@) =~= before.update(i as int, (kv, nv)));
            }
        },
        None => {
            assert(key_pos(before, kv) is None);
            es.push((key, n));
            proof {
                lemma_entries_view(es@);
                assert(entries_view(es@) =~= before.push((kv, nv)));
            }
        },
    }
}

/// Writes `leaf` at the end of `path`, from its segment `depth` on.
pub(crate) fn apply_in(
    node: &mut ConfigNode,
    path: &Vec<String>,
    depth: usize,
    leaf: ConfigNode,
    key_path: &Vec<char>,
) -> (r: Result<(), String>)
    requires
        depth < path@.len(),
    ensures
        match applied(
            node_view(*old(node)),
            path@.map_values(|s: String| s@),
            depth as int,
            node_view(leaf),
            key_path@,
        ) {
            Ok(v) => r is Ok && node_view(*final(node)) == v,
            Err(m) => r matches Err(e) && e@ == m,
        },
        r is Err ==> node_view(*final(node)) == node_view(*old(node)),
    decreases path@.len() - depth,
{
    let ghost pv = path@.map_values(|s: String| s@);
    match node {
        ConfigNode::Leaf(_, _) => {
            let mut v = crate::text::chars_of("cannot override `");
            crate::text::push_all(&mut v, key_path);
            crate::text::push_all(&mut v, &crate::text::chars_of("`: the configuration is not a table."));
            Err(crate::text::string_of(v))
        },
        ConfigNode::Table(entries) => {
            let ghost es0 = entries_view(entries@);
            if depth >= path.len() - 1 {
                upsert_entry(entries, path[depth].clone(), leaf);
                return Ok(());
            }
            let seg = path[depth].clone();
            assert(pv[depth as int] == seg@);
            let pos = key_position(entries, seg.as_str());
            let ghost orig = entries@;
            proof {
                lemma_entries_view(entries@);
                lemma_key_pos_found(es0, seg@);
            }
            if let Some(i) = pos {
                if let ConfigNode::Leaf(kind, _) = &entries[i].1 {
                    proof {
                        assert(entries_view(entries@)[i as int] == (entries@[i as int].0@, node_view(entries@[i as int].1)));
                        assert(child_or_empty(es0, pv[depth as int]) == node_view(entries@[i as int].1));
                    }
                    let prefix = crate::cli::settings::join_exec(&prefix_chars(path, depth + 1), ".");
                    let mut v = crate::text::chars_of("cannot override `");
                    crate::text::push_all(&mut v, key_path);
                    crate::text::push_all(&mut v, &crate::text::chars_of("`: `"));
                    crate::text::push_all(&mut v, &prefix);
                    crate::text::push_all(&mut v, &crate::text::chars_of("` is a "));
                    crate::text::push_all(&mut v, &crate::text::chars_of(kind.as_str()));
                    crate::text::push_all(&mut v, &crate::text::chars_of(", not a table."));
                    return Err(crate::text::string_of(v));
                }
            }
            let mut child = match pos {
                Some(i) => {
                    let mut slot = (seg.clone(), ConfigNode::Table(Vec::new()));
                    entries.set_and_swap(i, &mut slot);
                    slot.1
                },
                None => ConfigNode::Table(Vec::new()),
            };
            let ghost child0 = node_view(child);
            proof {
                assert(node_view(child) == child_or_empty(es0, pv[depth as int]));
            }
            let res = apply_in(&mut child, path, depth + 1, leaf, key_path);
            match res {
                Ok(()) => {},
                Err(e) => {
                    match pos {
                        Some(i) => {
                            let mut slot = (seg, child);
                            entries.set_and_swap(i, &mut slot);
                            proof {
                                lemma_entries_view(entries@);
                                assert forall|j: int| 0 <= j < es0.len() implies #[trigger] entries_view(entries@)[j] == es0[j] by {
                                    if j != i {
                                        assert(entries@[j] == orig[j]);
                                    } else {
                                        assert(es0[j].0 == pv[depth as int]);
                                    }
                                }
                                assert(entries_view(entries@) =~= es0);
                            }
                        },
                        None => {
                            proof {
                                assert(entries@ == orig);
                            }
                        },
                    }
                    return Err(e);
                },
            }
            let ghost cv = node_view(child);
            let ghost es1 = entries_view(entries@);
            proof {
                lemma_entries_view(entries@);
                assert forall|j: int| 0 <= j < es1.len() implies #[trigger] es1[j].0 == es0[j].0 by {
                    assert(es1[j].0 == entries@[j].0@);
                    assert(es0[j].0 == orig[j].0@);
                    match pos {
                        Some(i) => {
                            if j == i {
                                assert(entries@[j].0 == seg);
                            } else {
                                assert(entries@[j] == orig[j]);
                            }
                        },
                        None => {
                            assert(entries@[j] == orig[j]);
                        },
                    }
                }
                lemma_key_pos_same_keys(es1, es0, pv[depth as int]);
                assert(upsert(es1, pv[depth as int], cv) =~= upsert(es0, pv[depth as int], cv));
            }
            upsert_entry(entries, seg, child);
            Ok(())
        },
    }
}

/// The characters of the first `n` segments of a path.
pub(crate) fn prefix_chars(path: &Vec<String>, n: usize) -> (r: Vec<Vec<char>>)
    requires
        n <= path@.len(),
    ensures
        r@.map_values(|x: Vec<char>| x@) == path@.map_values(|s: String| s@).take(n as int),
{
    let mut out: Vec<Vec<char>> = Vec::new();
    let mut k: usize = 0;
    while k < n
        invariant
            k <= n,
            n <= path@.len(),
            out@.map_values(|x: Vec<char>| x@) == path@.map_values(|s: String| s@).take(k as int),
        decreases n - k,
    {
        let ghost before = out@;
        out.push(crate::text::chars_of(path[k].as_str()));
        proof {
            assert(out@.map_values(|x: Vec<char>| x@) =~= before.map_values(|x: Vec<char>| x@).push(
                path@[k as int]@,
            ));
            assert(path@.map_values(|s: String| s@).take(k + 1) =~= path@.map_values(|s: String| s@).take(
                k as int,
            ).push(path@[k as int]@));
        }
        k = k + 1;
    }
    out
}

} // verus!
