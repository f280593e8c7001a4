//! The `-D KEY=VALUE` overrides of the configuration: `KEY` is the dotted
//! path of a key of the configuration file, `VALUE` is read as TOML, or as
//! a plain string when it is not TOML.

use vstd::prelude::*;

use crate::cli::settings::join_exec;
use crate::cli::tree::{
    ConfigNode, NodeView, applied, apply_in, copy_node, joined, key_pos, key_position, lemma_applied_keeps_others,
    lemma_applied_reads, lemma_entries_view, lookup, node_view, parsed_tree, prefix_chars, toml_parse_tree,
};
use crate::rapl::topology::first_index;
use crate::text::{
    chars_of, concat3, copy_range, find_char, pieces, ranges_within, split_on, split_ranges,
    string_of_range, trim, trim_range,
};

verus! {

#[verifier::external_type_specification]
#[verifier::external_body]
pub struct ExTomlValue(toml::Value);

/// The TOML string holding a text.
pub uninterp spec fn string_value(s: Seq<char>) -> toml::Value;

/// The TOML string holding `s` (`Value::String`): the value named
/// [`string_value`] of its text.
#[verifier::external_body]
fn toml_string(s: String) -> (r: toml::Value)
    ensures
        r == string_value(s@),
{
    toml::Value::String(s)
}

/// The document a `-D` value is read in: `value = <raw>`, the value
/// without the blanks around it.
pub open spec fn value_doc(raw: Seq<char>) -> Seq<char> {
    "value = "@ + trim(raw)
}

/// The value a `-D` value reads as, when its document is TOML with a
/// `value` key.
pub open spec fn read_value(raw: Seq<char>) -> Option<NodeView> {
    match parsed_tree(value_doc(raw)) {
        Some(n) => match node_view(n) {
            NodeView::Table(es) => match key_pos(es, "value"@) {
                Some(i) => Some(es[i].1),
                None => None,
            },
            NodeView::Leaf(_, _) => None,
        },
        None => None,
    }
}

/// What a `-D` value gives: its TOML value, or else its text, without the
/// blanks around it, as a string.
pub open spec fn value_view(raw: Seq<char>) -> NodeView {
    match read_value(raw) {
        Some(v) => v,
        None => NodeView::Leaf("string"@, string_value(trim(raw))),
    }
}

/// Reads a `-D` value: the value of `value = <raw>` read as
/// TOML, or the raw text as a string when that is not TOML; blanks around
/// it are ignored.
pub fn parse_value(raw: &str) -> (r: ConfigNode)
    ensures
        node_view(r) == value_view(raw@),
{
    let v = chars_of(raw);
    let (lo, hi) = trim_range(&v, 0, v.len());
    proof {
        assert(v@.subrange(0, v@.len() as int) =~= v@);
    }
    let trimmed = string_of_range(&v, lo, hi);
    let doc = concat3("value = ", trimmed.as_str(), "");
    proof {
        reveal_strlit("");
        assert(doc@ =~= value_doc(raw@));
    }
    if let Some(tree) = toml_parse_tree(doc.as_str()) {
        if let ConfigNode::Table(mut es) = tree {
            let pos = key_position(&es, "value");
            if let Some(i) = pos {
                proof {
                    lemma_entries_view(es@);
                }
                let entry = es.remove(i);
                return entry.1;
            }
        }
    }
    ConfigNode::Leaf("string".to_owned(), toml_string(trimmed))
}

/// One `-D KEY=VALUE` override: the path of the key and its value.
pub struct ConfigOverride {
    pub path: Vec<String>,
    pub value: ConfigNode,
}

/// The segments of a key: split at `.`, each without the blanks around it.
pub open spec fn key_path(key: Seq<char>) -> Seq<Seq<char>> {
    split_on(trim(key), '.').map_values(|s: Seq<char>| trim(s))
}

/// The key of an override: what comes before its first `=`.
pub open spec fn override_key(s: Seq<char>) -> Option<Seq<char>> {
    match first_index(s, '=') {
        Some(k) => Some(s.subrange(0, k)),
        None => None,
    }
}

/// The value text of an override: what comes after its first `=`.
pub open spec fn override_value_text(s: Seq<char>) -> Seq<char> {
    match first_index(s, '=') {
        Some(k) => s.subrange(k + 1, s.len() as int),
        None => seq![],
    }
}

/// The message for an override without `=`.
pub open spec fn no_value_message(s: Seq<char>) -> Seq<char> {
    "expected KEY=VALUE, got `"@ + s + "`."@
}

/// The message for a key with an empty segment.
pub open spec fn bad_key_message(key: Seq<char>) -> Seq<char> {
    "`"@ + key + "` is not a valid configuration key."@
}

/// The segments of an override's path.
pub open spec fn path_view(p: Seq<String>) -> Seq<Seq<char>> {
    p.map_values(|s: String| s@)
}

impl ConfigOverride {
    /// Parses an override: `KEY=VALUE`, split
    /// at the first `=`; the key is a dotted path none of whose segments is
    /// empty.
    pub fn parse(s: &str) -> (r: Result<ConfigOverride, String>)
        ensures
            match override_key(s@) {
                None => r matches Err(m) && m@ == no_value_message(s@),
                Some(key) => if exists|i: int| 0 <= i < key_path(key).len() && #[trigger] key_path(key)[i].len() == 0 {
                    r matches Err(m) && m@ == bad_key_message(key)
                } else {
                    r matches Ok(o) && path_view(o.path@) == key_path(key) && node_view(o.value)
                        == value_view(override_value_text(s@))
                },
            },
    {
        let v = chars_of(s);
        let eq = find_char(&v, 0, v.len(), '=');
        let e = match eq {
            Some(e) => e,
            None => {
                proof {
                    assert(first_index(s@, '=') is None);
                }
                return Err(concat3("expected KEY=VALUE, got `", s, "`."));
            },
        };
        proof {
            assert(s@[e as int] == '=');
            let c = choose|i: int| 0 <= i < s@.len() && s@[i] == '=' && forall|j: int| 0 <= j < i ==> s@[j] != '=';
            if c < e {
                assert(s@[c] != '=');
            }
            if e < c {
                assert(s@[e as int] != '=');
            }
            assert(first_index(s@, '=') == Some(e as int));
        }
        let ghost key = s@.subrange(0, e as int);
        let (klo, khi) = trim_range(&v, 0, e);
        let kv = copy_range(&v, klo, khi);
        let ranges = split_ranges(&kv, '.');
        let ghost raw_parts = split_on(trim(key), '.');
        assert(pieces(kv@, ranges@) == raw_parts);
        let mut path: Vec<String> = Vec::new();
        let mut k: usize = 0;
        while k < ranges.len()
            invariant
                k <= ranges@.len(),
                ranges_within(ranges@, kv@.len() as int),
                pieces(kv@, ranges@) == raw_parts,
                raw_parts.len() == ranges@.len(),
                raw_parts == split_on(trim(key), '.'),
                key == s@.subrange(0, e as int),
                e < v@.len(),
                v@ == s@,
                first_index(s@, '=') == Some(e as int),
                path_view(path@) == raw_parts.take(k as int).map_values(|x: Seq<char>| trim(x)),
                forall|i: int| 0 <= i < k ==> (#[trigger] path@[i])@.len() > 0,
            decreases ranges@.len() - k,
        {
            let (a, b) = ranges[k];
            let (ta, tb) = trim_range(&kv, a, b);
            proof {
                assert(raw_parts[k as int] == kv@.subrange(a as int, b as int));
            }
            if ta == tb {
                proof {
                    let kp = key_path(key);
                    assert(kp[k as int] == trim(raw_parts[k as int]));
                    assert(kp[k as int].len() == 0);
                    assert(override_key(s@) == Some(key));
                    assert(exists|i: int| 0 <= i < key_path(key).len() && #[trigger] key_path(key)[i].len() == 0);
                }
                let key_text = string_of_range(&v, 0, e);
                assert(key_text@ == key);
                let msg = concat3("`", key_text.as_str(), "` is not a valid configuration key.");
                assert(msg@ == bad_key_message(key));
                return Err(msg);
            }
            let ghost before = path@;
            path.push(string_of_range(&kv, ta, tb));
            proof {
                assert(path_view(path@) =~= path_view(before).push(trim(raw_parts[k as int])));
                assert(raw_parts.take(k + 1).map_values(|x: Seq<char>| trim(x)) =~= raw_parts.take(
                    k as int,
                ).map_values(|x: Seq<char>| trim(x)).push(trim(raw_parts[k as int])));
            }
            k = k + 1;
        }
        proof {
            assert(raw_parts.take(raw_parts.len() as int) =~= raw_parts);
            assert(path_view(path@) == key_path(key));
            assert forall|i: int| 0 <= i < key_path(key).len() implies #[trigger] key_path(key)[i].len() != 0 by {
                assert(path_view(path@)[i] == path@[i]@);
            }
        }
        let text = string_of_range(&v, e + 1, v.len());
        proof {
            assert(text@ == override_value_text(s@));
        }
        let value = parse_value(text.as_str());
        Ok(ConfigOverride { path, value })
    }
}

/// The dotted key of a path.
pub open spec fn dotted(p: Seq<String>) -> Seq<char> {
    joined(path_view(p), "."@)
}

/// What writing an override into a tree gives.
pub open spec fn override_applied(t: NodeView, o: ConfigOverride) -> Result<NodeView, Seq<char>> {
    applied(t, path_view(o.path@), 0, node_view(o.value), dotted(o.path@))
}

impl ConfigOverride {
    /// Writes the override into `root`, creating
    /// the tables its path goes through; a key on the path that holds
    /// something else than a table is an error.
    pub fn apply(&self, root: &mut ConfigNode) -> (r: Result<(), String>)
        requires
            self.path@.len() > 0,
        ensures
            match override_applied(node_view(*old(root)), *self) {
                Ok(v) => r is Ok && node_view(*final(root)) == v,
                Err(m) => r matches Err(e) && e@ == m,
            },
            r is Err ==> node_view(*final(root)) == node_view(*old(root)),
    {
        let names = prefix_chars(&self.path, self.path.len());
        proof {
            assert(path_view(self.path@).take(self.path@.len() as int) =~= path_view(self.path@));
        }
        let key_path = join_exec(&names, ".");
        apply_in(root, &self.path, 0, copy_node(&self.value), &key_path)
    }
}

/// An override is read back: once `-D key=value` is written into a
/// configuration, the key holds the value.
pub proof fn law_override_read_back(t: NodeView, o: ConfigOverride)
    requires
        o.path@.len() > 0,
        override_applied(t, o) is Ok,
    ensures
        lookup(override_applied(t, o)->Ok_0, path_view(o.path@), 0) == Some(node_view(o.value)),
{
    lemma_applied_reads(t, path_view(o.path@), 0, node_view(o.value), dotted(o.path@));
}

/// An override leaves the other sections alone: a key path that starts
/// at another top-level key than the override's reads the same before and
/// after it.
pub proof fn law_override_keeps_other_keys(t: NodeView, o: ConfigOverride, q: Seq<Seq<char>>)
    requires
        o.path@.len() > 0,
        q.len() > 0,
        q[0] != path_view(o.path@)[0],
        override_applied(t, o) is Ok,
    ensures
        lookup(override_applied(t, o)->Ok_0, q, 0) == lookup(t, q, 0),
{
    lemma_applied_keeps_others(t, path_view(o.path@), node_view(o.value), dotted(o.path@), q);
}

/// The text of an optional string.
pub open spec fn opt_view(s: Option<&str>) -> Option<Seq<char>> {
    match s {
        Some(x) => Some(x@),
        None => None,
    }
}

/// The tree the overrides start from: the configuration file's, or an
/// empty table without a file.
pub open spec fn start_tree(content: Option<Seq<char>>) -> Result<NodeView, Seq<char>> {
    match content {
        None => Ok(NodeView::Table(seq![])),
        Some(c) => match parsed_tree(c) {
            Some(n) => Ok(node_view(n)),
            None => Err("error parsing configuration file"@),
        },
    }
}

/// The tree after the overrides, in order; the first failure stops them.
pub open spec fn overridden(start: Result<NodeView, Seq<char>>, os: Seq<ConfigOverride>) -> Result<
    NodeView,
    Seq<char>,
>
    decreases os.len(),
{
    if os.len() == 0 {
        start
    } else {
        match overridden(start, os.drop_last()) {
            Err(m) => Err(m),
            Ok(t) => override_applied(t, os.last()),
        }
    }
}

/// Overrides are applied on top of the configuration file, in order: when
/// they all apply, the key of the last one holds its value, whatever the
/// file or an earlier override set there.
pub proof fn law_last_override_wins(start: Result<NodeView, Seq<char>>, os: Seq<ConfigOverride>)
    requires
        os.len() > 0,
        os.last().path@.len() > 0,
        overridden(start, os) is Ok,
    ensures
        lookup(overridden(start, os)->Ok_0, path_view(os.last().path@), 0) == Some(node_view(os.last().value)),
{
    law_override_read_back(overridden(start, os.drop_last())->Ok_0, os.last());
}

/// The configuration document: the text of the
/// configuration file, if any, read as TOML, with the overrides written
/// into it in order.
pub fn load_global_config(content: Option<&str>, overrides: &Vec<ConfigOverride>) -> (r: Result<
    ConfigNode,
    String,
>)
    requires
        forall|i: int| 0 <= i < overrides@.len() ==> (#[trigger] overrides@[i]).path@.len() > 0,
    ensures
        match overridden(start_tree(opt_view(content)), overrides@) {
            Ok(v) => r matches Ok(n) && node_view(n) == v,
            Err(m) => r matches Err(e) && e@ == m,
        },
{
    let mut tree = match content {
        Some(text) => match toml_parse_tree(text) {
            Some(n) => n,
            None => {
                proof {
                    lemma_overridden_start_error("error parsing configuration file"@, overrides@);
                }
                return Err("error parsing configuration file".to_owned());
            },
        },
        None => ConfigNode::Table(Vec::new()),
    };
    proof {
        assert(overrides@.take(0) =~= Seq::<ConfigOverride>::empty());
    }
    let mut k: usize = 0;
    while k < overrides.len()
        invariant
            k <= overrides@.len(),
            forall|i: int| 0 <= i < overrides@.len() ==> (#[trigger] overrides@[i]).path@.len() > 0,
            overridden(start_tree(opt_view(content)), overrides@.take(k as int)) == Ok::<NodeView, Seq<char>>(
                node_view(tree),
            ),
        decreases overrides@.len() - k,
    {
        proof {
            assert(overrides@.take(k + 1).drop_last() =~= overrides@.take(k as int));
            assert(overrides@.take(k + 1).last() == overrides@[k as int]);
        }
        match overrides[k].apply(&mut tree) {
            Ok(()) => {},
            Err(e) => {
                proof {
                    lemma_overridden_error(start_tree(opt_view(content)), overrides@, k + 1);
                }
                return Err(e);
            },
        }
        k = k + 1;
    }
    proof {
        assert(overrides@.take(overrides@.len() as int) =~= overrides@);
    }
    Ok(tree)
}

/// A failure before the overrides is the outcome.
proof fn lemma_overridden_start_error(m: Seq<char>, os: Seq<ConfigOverride>)
    ensures
        overridden(Err(m), os) == Err::<NodeView, Seq<char>>(m),
    decreases os.len(),
{
    if os.len() > 0 {
        lemma_overridden_start_error(m, os.drop_last());
    }
}

/// A failure of a prefix of the overrides is the failure of them all.
proof fn lemma_overridden_error(start: Result<NodeView, Seq<char>>, os: Seq<ConfigOverride>, n: int)
    requires
        0 <= n <= os.len(),
        overridden(start, os.take(n)) is Err,
    ensures
        overridden(start, os) == overridden(start, os.take(n)),
    decreases os.len() - n,
{
    if n < os.len() {
        assert(os.take(n + 1).drop_last() =~= os.take(n));
        lemma_overridden_error(start, os, n + 1);
    } else {
        assert(os.take(n) =~= os);
    }
}

} // verus!
