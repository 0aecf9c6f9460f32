//! Discovery of supported data files in a directory-tree snapshot:
//! hidden entries are skipped (hidden directories are not descended
//! into), and every remaining file whose extension matches a
//! supported format exactly is collected, as a path relative to the
//! scanned root, in tree order.

use vstd::prelude::*;
use vstd::string::*;

use crate::naming::{is_data_file_name, spec_hidden, spec_is_data_file_name};

verus! {

/// A snapshot of one directory-tree member: a plain file, or a
/// directory with its children in a fixed order.
pub enum FsNode {
    File { name: String },
    Dir { name: String, children: Vec<FsNode> },
}

/// Whether a single path component names a hidden entry: its first
/// character is a dot.
pub fn is_hidden(name: &str) -> (r: bool)
    ensures
        r == spec_hidden(name@),
{
    name.unicode_len() > 0 && name.get_char(0) == '.'
}

/// The relative paths discovered under one tree member, each starting
/// with `prefix`: a non-hidden file with a supported extension
/// contributes its path, a non-hidden directory contributes whatever
/// its children hold, and hidden members contribute nothing.
pub open spec fn spec_discover_node(prefix: Seq<char>, node: FsNode) -> Seq<Seq<char>>
    decreases node,
{
    match node {
        FsNode::File { name } => if spec_is_data_file_name(name@) {
            seq![prefix + name@]
        } else {
            Seq::empty()
        },
        FsNode::Dir { name, children } => if spec_hidden(name@) {
            Seq::empty()
        } else {
            spec_discover_children(prefix + name@ + "/"@, children@)
        },
    }
}

/// The relative paths discovered under a sequence of tree members, in
/// order.
pub open spec fn spec_discover_children(prefix: Seq<char>, children: Seq<FsNode>) -> Seq<
    Seq<char>,
>
    decreases children,
{
    if children.len() == 0 {
        Seq::empty()
    } else {
        spec_discover_node(prefix, children[0]) + spec_discover_children(
            prefix,
            children.drop_first(),
        )
    }
}

/// The relative paths discovered under a whole tree: the children of
/// a directory root, with no prefix; a root that is not a directory
/// yields nothing.
pub open spec fn spec_discover(root: FsNode) -> Seq<Seq<char>> {
    match root {
        FsNode::Dir { children, .. } => spec_discover_children(Seq::empty(), children@),
        FsNode::File { .. } => Seq::empty(),
    }
}

proof fn lemma_discover_children_snoc(prefix: Seq<char>, children: Seq<FsNode>, node: FsNode)
    ensures
        spec_discover_children(prefix, children.push(node)) == spec_discover_children(
            prefix,
            children,
        ) + spec_discover_node(prefix, node),
    decreases children.len(),
{
    let whole = children.push(node);
    if children.len() == 0 {
        assert(whole[0] == node);
        assert(whole.drop_first() =~= Seq::<FsNode>::empty());
        assert(spec_discover_children(prefix, whole.drop_first()) =~= Seq::<Seq<char>>::empty());
        assert(spec_discover_children(prefix, whole) =~= spec_discover_children(prefix, children)
            + spec_discover_node(prefix, node));
    } else {
        assert(whole[0] == children[0]);
        assert(whole.drop_first() =~= children.drop_first().push(node));
        lemma_discover_children_snoc(prefix, children.drop_first(), node);
        assert(spec_discover_children(prefix, whole) =~= spec_discover_children(prefix, children)
            + spec_discover_node(prefix, node));
    }
}

/// Collects into `files` every data file under `node`, its path
/// starting with `prefix`.
fn visit_node(prefix: &str, node: &FsNode, files: &mut Vec<String>)
    ensures
        final(files).deep_view() == old(files).deep_view() + spec_discover_node(prefix@, *node),
    decreases *node,
{
    let ghost before = files.deep_view();
    match node {
        FsNode::File { name } => {
            if is_data_file_name(name.as_str()) {
                let path = prefix.to_owned().concat(name.as_str());
                files.push(path);
                proof {
                    assert(files.deep_view() =~= before + spec_discover_node(prefix@, *node));
                }
            } else {
                proof {
                    assert(files.deep_view() =~= before + spec_discover_node(prefix@, *node));
                }
            }
        },
        FsNode::Dir { name, children } => {
            if is_hidden(name.as_str()) {
                proof {
                    assert(files.deep_view() =~= before + spec_discover_node(prefix@, *node));
                }
            } else {
                let sub_prefix = prefix.to_owned().concat(name.as_str()).concat("/");
                visit_children(sub_prefix.as_str(), children, files);
            }
        },
    }
}

/// Collects into `files` every data file under `children`, in order.
#[verifier::loop_isolation(false)]
fn visit_children(prefix: &str, children: &Vec<FsNode>, files: &mut Vec<String>)
    ensures
        final(files).deep_view() == old(files).deep_view() + spec_discover_children(
            prefix@,
            children@,
        ),
    decreases children@,
{
    let ghost before = files.deep_view();
    let n = children.len();
    let mut i: usize = 0;
    while i < n
        invariant
            i <= n,
            files.deep_view() == before + spec_discover_children(prefix@, children@.take(i as int)),
        decreases n - i,
    {
        proof {
            assert(children@.take(i + 1) =~= children@.take(i as int).push(children@[i as int]));
            lemma_discover_children_snoc(prefix@, children@.take(i as int), children@[i as int]);
        }
        visit_node(prefix, &children[i], files);
        i = i + 1;
    }
    proof {
        assert(children@.take(n as int) =~= children@);
    }
}

/// Scans a directory-tree snapshot for supported data files and
/// returns their paths relative to the root, in tree order.
pub fn discover_data_files(root: &FsNode) -> (r: Vec<String>)
    ensures
        r.deep_view() == spec_discover(*root),
{
    let mut files: Vec<String> = Vec::new();
    proof {
        assert(files.deep_view() =~= Seq::<Seq<char>>::empty());
    }
    match root {
        FsNode::Dir { children, .. } => {
            proof {
                reveal_strlit("");
                assert(""@ =~= Seq::<char>::empty());
            }
            visit_children("", children, &mut files);
            proof {
                assert(files.deep_view() =~= spec_discover(*root));
            }
        },
        FsNode::File { .. } => {},
    }
    files
}

} // verus!
