//! What the commands show: the label of a branch, the link of a pull request, and
//! the branch hierarchy as lines of a drawing.
use crate::text::{join2, join3};
use crate::tree::{children_of, same_name, BranchTree, Name, TreeModel};
use vstd::prelude::*;
use vstd::string::StringExecFns;

verus! {

/// The label of a branch: the name after a star for the branch that is checked
/// out, after two blanks for any other.
pub open spec fn branch_label(name: Name, is_current: bool) -> Seq<char> {
    if is_current {
        "* "@ + name
    } else {
        "  "@ + name
    }
}

/// The label of the branch `branch_name`.
pub fn format_branch_name(branch_name: &str, is_current: bool) -> (r: String)
    ensures
        r@ == branch_label(branch_name@, is_current),
{
    if is_current {
        join2("* ", branch_name)
    } else {
        join2("  ", branch_name)
    }
}

/// The digit `d` as text.
pub open spec fn digit_text(d: int) -> Seq<char> {
    if d == 0 {
        "0"@
    } else if d == 1 {
        "1"@
    } else if d == 2 {
        "2"@
    } else if d == 3 {
        "3"@
    } else if d == 4 {
        "4"@
    } else if d == 5 {
        "5"@
    } else if d == 6 {
        "6"@
    } else if d == 7 {
        "7"@
    } else if d == 8 {
        "8"@
    } else {
        "9"@
    }
}

/// The number `n` in decimal.
pub open spec fn decimal(n: nat) -> Seq<char>
    decreases n,
{
    if n < 10 {
        digit_text(n as int)
    } else {
        decimal(n / 10) + digit_text((n % 10) as int)
    }
}

/// The digit `d` as text.
fn digit(d: u64) -> (r: &'static str)
    requires
        d < 10,
    ensures
        r@ == digit_text(d as int),
{
    if d == 0 {
        "0"
    } else if d == 1 {
        "1"
    } else if d == 2 {
        "2"
    } else if d == 3 {
        "3"
    } else if d == 4 {
        "4"
    } else if d == 5 {
        "5"
    } else if d == 6 {
        "6"
    } else if d == 7 {
        "7"
    } else if d == 8 {
        "8"
    } else {
        "9"
    }
}

/// The number `n` in decimal.
pub fn decimal_text(n: u64) -> (r: String)
    ensures
        r@ == decimal(n as nat),
    decreases n,
{
    if n < 10 {
        String::from_str(digit(n))
    } else {
        decimal_text(n / 10).concat(digit(n % 10))
    }
}

/// The link of a pull request, as it follows the label of its branch.
pub open spec fn pr_link(number: u64, url: Seq<char>) -> Seq<char> {
    " [PR #"@ + decimal(number as nat) + "]("@ + url + ")"@
}

/// The link of the pull request with the number `number` at the address `url`.
pub fn format_pr_link(number: u64, url: &str) -> (r: String)
    ensures
        r@ == pr_link(number, url@),
{
    String::from_str(" [PR #").concat(decimal_text(number).as_str()).concat("](").concat(url).concat(
        ")",
    )
}

/// One line of the drawing of a hierarchy.
#[derive(Debug)]
pub struct HierarchyLine {
    /// What is drawn before the connector: the rails of the levels above.
    pub prefix: String,
    /// Whether the branch is the last of its siblings.
    pub is_last: bool,
    /// The branch of the line.
    pub branch: String,
}

/// A line as contracts see it.
pub ghost struct LineModel {
    pub prefix: Seq<char>,
    pub is_last: bool,
    pub branch: Seq<char>,
}

impl View for HierarchyLine {
    type V = LineModel;

    open spec fn view(&self) -> LineModel {
        LineModel { prefix: self.prefix@, is_last: self.is_last, branch: self.branch@ }
    }
}

/// The lines of a list of lines.
pub open spec fn lines_model(lines: Seq<HierarchyLine>) -> Seq<LineModel> {
    Seq::new(lines.len(), |i: int| lines[i]@)
}

/// The prefix of the lines below a line: a blank rail below a last sibling, a drawn
/// rail below any other.
pub open spec fn prefix_below(prefix: Seq<char>, is_last: bool) -> Seq<char> {
    if is_last {
        prefix + "    "@
    } else {
        prefix + "│   "@
    }
}

/// The lines for `branch` and what is below it, down to `depth` levels of
/// children.
pub open spec fn subtree_lines(
    m: TreeModel,
    branch: Name,
    prefix: Seq<char>,
    is_last: bool,
    depth: nat,
) -> Seq<LineModel>
    decreases depth, 0nat, 0nat,
{
    let head = seq![LineModel { prefix, is_last, branch }];
    if depth == 0 {
        head
    } else {
        head + sibling_lines(
            m,
            children_of(m, branch),
            0,
            prefix_below(prefix, is_last),
            (depth - 1) as nat,
        )
    }
}

/// The lines for the branches of `siblings` from position `from` on, each with what
/// is below it.
pub open spec fn sibling_lines(
    m: TreeModel,
    siblings: Seq<Name>,
    from: int,
    prefix: Seq<char>,
    depth: nat,
) -> Seq<LineModel>
    decreases depth, 1nat, siblings.len() - from,
{
    if from < 0 || from >= siblings.len() {
        Seq::empty()
    } else {
        subtree_lines(m, siblings[from], prefix, from == siblings.len() - 1, depth) + sibling_lines(
            m,
            siblings,
            from + 1,
            prefix,
            depth,
        )
    }
}

/// The drawing of a hierarchy from its roots. A hierarchy without a cycle has
/// fewer levels than entries, so that every branch below a root is drawn; one with
/// a cycle is drawn down to as many levels as it has entries.
pub open spec fn hierarchy_lines(m: TreeModel, roots: Seq<Name>) -> Seq<LineModel> {
    sibling_lines(m, roots, 0, Seq::empty(), m.len())
}

/// Adds the lines for `branch` and what is below it.
fn push_subtree(
    tree: &BranchTree,
    branch: &str,
    prefix: &str,
    is_last: bool,
    depth: usize,
    lines: &mut Vec<HierarchyLine>,
)
    ensures
        lines_model(final(lines)@) == lines_model(old(lines)@) + subtree_lines(
            tree@,
            branch@,
            prefix@,
            is_last,
            depth as nat,
        ),
    decreases depth, 0nat, 0nat,
{
    let ghost before = lines_model(lines@);
    lines.push(
        HierarchyLine { prefix: String::from_str(prefix), is_last, branch: String::from_str(branch) },
    );
    assert(lines_model(lines@) =~= before + seq![
        LineModel { prefix: prefix@, is_last, branch: branch@ },
    ]);
    if depth > 0 {
        let below = if is_last {
            join2(prefix, "    ")
        } else {
            join2(prefix, "│   ")
        };
        match tree.get(branch) {
            Some(children) => {
                push_siblings(tree, children, 0, below.as_str(), depth - 1, lines);
            },
            None => {
                assert(children_of(tree@, branch@) =~= Seq::<Name>::empty());
            },
        }
        assert(lines_model(lines@) =~= before + subtree_lines(
            tree@,
            branch@,
            prefix@,
            is_last,
            depth as nat,
        ));
    }
}

/// Adds the lines for the branches of `siblings` from position `from` on.
fn push_siblings(
    tree: &BranchTree,
    siblings: &Vec<String>,
    from: usize,
    prefix: &str,
    depth: usize,
    lines: &mut Vec<HierarchyLine>,
)
    ensures
        lines_model(final(lines)@) == lines_model(old(lines)@) + sibling_lines(
            tree@,
            siblings.deep_view(),
            from as int,
            prefix@,
            depth as nat,
        ),
    decreases depth, 1nat, siblings.len() - from,
{
    let ghost before = lines_model(lines@);
    if from >= siblings.len() {
        assert(lines_model(lines@) =~= before + Seq::<LineModel>::empty());
        return ;
    }
    let is_last = from == siblings.len() - 1;
    push_subtree(tree, siblings[from].as_str(), prefix, is_last, depth, lines);
    let ghost middle = lines_model(lines@);
    push_siblings(tree, siblings, from + 1, prefix, depth, lines);
    proof {
        let first = subtree_lines(
            tree@,
            siblings.deep_view()[from as int],
            prefix@,
            is_last,
            depth as nat,
        );
        let rest = sibling_lines(tree@, siblings.deep_view(), from + 1, prefix@, depth as nat);
        assert(before + first + rest =~= before + (first + rest));
    }
}

/// The drawing of the hierarchy `tree` from `root_branches`: a line for every
/// branch, each root and below it its children, level by level.
pub fn print_branch_hierarchy(tree: &BranchTree, root_branches: &Vec<String>) -> (lines: Vec<
    HierarchyLine,
>)
    ensures
        lines_model(lines@) == hierarchy_lines(tree@, root_branches.deep_view()),
{
    let mut lines: Vec<HierarchyLine> = Vec::new();
    assert(lines_model(lines@) =~= Seq::<LineModel>::empty());
    push_siblings(tree, root_branches, 0, "", tree.len(), &mut lines);
    proof {
        reveal_strlit("");
        assert(""@ =~= Seq::<char>::empty());
        assert(Seq::<LineModel>::empty() + hierarchy_lines(tree@, root_branches.deep_view())
            =~= hierarchy_lines(tree@, root_branches.deep_view()));
    }
    lines
}

/// The connector of a line: an elbow for a last sibling, a tee for any other.
pub open spec fn connector(is_last: bool) -> Seq<char> {
    if is_last {
        "└── "@
    } else {
        "├── "@
    }
}

/// The text of a line: the prefix, the connector, the label of the branch, the link
/// of its pull request where it has one, and the summary of its last commit in
/// quotes where that is known.
pub open spec fn line_text(
    line: LineModel,
    is_current: bool,
    pr: Option<(u64, Seq<char>)>,
    summary: Option<Seq<char>>,
) -> Seq<char> {
    line.prefix + connector(line.is_last) + branch_label(line.branch, is_current) + match pr {
        Some((number, url)) => pr_link(number, url),
        None => Seq::empty(),
    } + match summary {
        Some(text) => " \""@ + text + "\""@,
        None => Seq::empty(),
    }
}

/// The text of a line of the drawing, without colours.
pub fn render_line(
    line: &HierarchyLine,
    is_current: bool,
    pr: Option<(u64, &str)>,
    summary: Option<&str>,
) -> (r: String)
    ensures
        r@ == line_text(
            line@,
            is_current,
            match pr {
                Some((number, url)) => Some((number, url@)),
                None => None,
            },
            match summary {
                Some(text) => Some(text@),
                None => None,
            },
        ),
{
    let symbol = if line.is_last {
        "└── "
    } else {
        "├── "
    };
    let label = format_branch_name(line.branch.as_str(), is_current);
    let mut text = join3(line.prefix.as_str(), symbol, label.as_str());
    let ghost base = text@;
    match pr {
        Some((number, url)) => {
            let link = format_pr_link(number, url);
            text = text.concat(link.as_str());
        },
        None => {
            assert(text@ =~= base + Seq::<char>::empty());
        },
    }
    let ghost middle = text@;
    match summary {
        Some(words) => {
            let quoted = join3(" \"", words, "\"");
            text = text.concat(quoted.as_str());
        },
        None => {
            assert(text@ =~= middle + Seq::<char>::empty());
        },
    }
    text
}

/// The line that says of a branch whether it is the one that is checked out.
pub open spec fn listing_line(name: Name, current_branch: Name) -> Seq<char> {
    if name == current_branch {
        name + " is current"@
    } else {
        name + " is not current"@
    }
}

/// The lines that list branches without a hierarchy: each with whether it is the
/// one that is checked out.
pub fn branch_listing(names: &Vec<String>, current_branch: &str) -> (lines: Vec<String>)
    ensures
        lines.len() == names.len(),
        forall|i: int|
            0 <= i < names.len() ==> (#[trigger] lines[i])@ == listing_line(
                names[i]@,
                current_branch@,
            ),
{
    let mut lines: Vec<String> = Vec::new();
    let mut i: usize = 0;
    while i < names.len()
        invariant
            i <= names.len(),
            lines.len() == i,
            forall|k: int|
                0 <= k < i ==> (#[trigger] lines[k])@ == listing_line(names[k]@, current_branch@),
        decreases names.len() - i,
    {
        let name = names[i].as_str();
        if same_name(name, current_branch) {
            lines.push(join2(name, " is current"));
        } else {
            lines.push(join2(name, " is not current"));
        }
        i += 1;
    }
    lines
}

} // verus!
