//! The list of blocked names: how a line of a list file is read, how the
//! lists of several files are laid over each other, and which names the
//! result blocks.

use vstd::prelude::*;
use vstd::string::StrSliceExecFns;
use regex::Regex;
use crate::cache::limit_map::names_of;

verus! {

/// The pattern of a line that names a domain and its group.
pub const GET_DOMAIN_REGEX: &'static str =
    "address /([a-zA-Z0-9][-a-zA-Z0-9]{0,62}(?:\\.[a-zA-Z0-9][-a-zA-Z0-9]{0,62})+)/([#|d])";

/// The group of the names that are blocked.
pub open spec fn block_group() -> Seq<char> {
    "#"@
}

/// A domain of a list file and the group that the file puts it in: `#` to
/// block it, any other to take it off the list.
#[derive(Debug, PartialEq, Eq)]
pub struct FilterItem {
    pub domain: String,
    pub group: String,
}

/// What a [`FilterItem`] holds.
pub struct FilterItemView {
    pub domain: Seq<char>,
    pub group: Seq<char>,
}

impl View for FilterItem {
    type V = FilterItemView;

    open spec fn view(&self) -> FilterItemView {
        FilterItemView { domain: self.domain@, group: self.group@ }
    }
}

impl FilterItem {
    /// The item that blocks `domain`.
    pub fn from(domain: String) -> (item: Self)
        ensures
            item@ == (FilterItemView { domain: domain@, group: block_group() }),
    {
        FilterItem { domain, group: "#".to_owned() }
    }
}

#[verifier::external_type_specification]
#[verifier::external_body]
pub struct ExRegex(Regex);

#[verifier::external_type_specification]
#[verifier::external_body]
pub struct ExRegexError(regex::Error);

/// The two groups that a pattern captures in a line.
pub type Groups = (Option<String>, Option<String>);

/// The pattern that a regular expression was compiled from.
pub uninterp spec fn regex_pattern(regex: Regex) -> Seq<char>;

/// What the first match in `line` of the regular expression that
/// `Regex::new` compiles from `pattern` captures in its first and second
/// group, each `None` where the group took no part in the match; `None`
/// where the expression matches nowhere in the line.
pub uninterp spec fn captured(pattern: Seq<char>, line: Seq<char>) -> Option<
    (Option<Seq<char>>, Option<Seq<char>>),
>;

/// The compiled pattern of a list line. The only way to one is
/// [`line_regex`], so every value holds what `Regex::new` compiled from its
/// pattern, with no option set that would change what it matches.
pub struct LineRegex {
    regex: Regex,
}

impl LineRegex {
    /// The pattern that was compiled.
    pub closed spec fn pattern(&self) -> Seq<char> {
        regex_pattern(self.regex)
    }
}

/// What the strings of `groups` hold.
pub open spec fn groups_view(groups: Option<Groups>) -> Option<
    (Option<Seq<char>>, Option<Seq<char>>),
> {
    match groups {
        None => None,
        Some((first, second)) => Some(
            (
                match first {
                    Some(text) => Some(text@),
                    None => None,
                },
                match second {
                    Some(text) => Some(text@),
                    None => None,
                },
            ),
        ),
    }
}

/// Compiles a pattern.
///
/// Wraps `Regex::new`, which compiles the pattern or fails where the
/// pattern is invalid or too big; `Regex::as_str` of what it compiled is the
/// pattern given.
#[verifier::external_body]
fn regex_new(pattern: &str) -> (r: Result<Regex, regex::Error>)
    ensures
        r matches Ok(regex) ==> regex_pattern(regex) == pattern@,
{
    Regex::new(pattern)
}

/// The first and second group of the first match of `compiled` in `line`.
///
/// Wraps `Regex::captures`, which is the capture groups of the first match
/// in the haystack or `None` without a match, `Captures::get`, which is the
/// match of a group or `None` where the group took no part, and
/// `Match::as_str`, the text matched. What an expression captures follows
/// from its pattern and the line alone as long as it was compiled by
/// `Regex::new`, which holds of every [`LineRegex`].
#[verifier::external_body]
fn regex_captures(compiled: &LineRegex, line: &str) -> (groups: Option<Groups>)
    ensures
        groups_view(groups) == captured(regex_pattern(compiled.regex), line@),
{
    compiled.regex.captures(line).map(
        |cap|
            (
                cap.get(1).map(|m| String::from(m.as_str())),
                cap.get(2).map(|m| String::from(m.as_str())),
            ),
    )
}

/// Whether a line is a comment: its first character is `#`.
pub open spec fn is_comment(line: Seq<char>) -> bool {
    line.len() > 0 && line[0] == '#'
}

/// The item that a line stands for, given what the pattern captures in it:
/// none for a comment, for a line without a match and for a match without
/// both groups.
pub open spec fn item_of(
    line: Seq<char>,
    groups: Option<(Option<Seq<char>>, Option<Seq<char>>)>,
) -> Option<FilterItemView> {
    if is_comment(line) {
        None
    } else {
        match groups {
            Some((Some(domain), Some(group))) => Some(FilterItemView { domain, group }),
            _ => None,
        }
    }
}

/// The item that `line` stands for, given the `groups` that the pattern
/// captures in it.
pub fn item_from_captures(line: &str, groups: Option<Groups>) -> (item: Option<FilterItem>)
    ensures
        match item {
            Some(found) => item_of(line@, groups_view(groups)) == Some(found@),
            None => item_of(line@, groups_view(groups)) is None,
        },
{
    if !line.is_empty() && line.get_char(0) == '#' {
        return None;
    }
    match groups {
        Some((Some(domain), Some(group))) => Some(FilterItem { domain, group }),
        _ => None,
    }
}

/// The pattern of a list line, compiled; `None` where it does not compile.
pub fn line_regex() -> (r: Option<LineRegex>)
    ensures
        r matches Some(compiled) ==> compiled.pattern() == GET_DOMAIN_REGEX@,
{
    match regex_new(GET_DOMAIN_REGEX) {
        Ok(regex) => Some(LineRegex { regex }),
        Err(_) => None,
    }
}

/// The item that `line` stands for by the pattern `regex`.
pub fn handle_one_line(regex: &LineRegex, line: &String) -> (item: Option<FilterItem>)
    ensures
        match item {
            Some(found) => item_of(line@, captured(regex.pattern(), line@)) == Some(found@),
            None => item_of(line@, captured(regex.pattern(), line@)) is None,
        },
{
    let groups = regex_captures(regex, line.as_str());
    item_from_captures(line.as_str(), groups)
}

/// The items that `lines` stand for by the pattern `pattern`, in the order
/// of the lines.
pub open spec fn items_of(pattern: Seq<char>, lines: Seq<Seq<char>>) -> Seq<FilterItemView>
    decreases lines.len(),
{
    if lines.len() == 0 {
        Seq::<FilterItemView>::empty()
    } else {
        let before = items_of(pattern, lines.drop_last());
        match item_of(lines.last(), captured(pattern, lines.last())) {
            Some(item) => before.push(item),
            None => before,
        }
    }
}

/// What each item of `items` holds.
pub open spec fn item_views(items: Seq<FilterItem>) -> Seq<FilterItemView> {
    Seq::new(items.len(), |i: int| items[i]@)
}

/// The items that the lines of one list stand for.
pub fn read_to_filter(regex: &LineRegex, lines: &Vec<String>) -> (items: Vec<FilterItem>)
    ensures
        item_views(items@) == items_of(regex.pattern(), names_of(lines@)),
{
    let mut items: Vec<FilterItem> = Vec::new();
    let n = lines.len();
    let mut i: usize = 0;
    assert(names_of(lines@).take(0) =~= Seq::<Seq<char>>::empty());
    assert(item_views(items@) =~= Seq::<FilterItemView>::empty());
    while i < n
        invariant
            n == lines@.len(),
            i <= n,
            item_views(items@) == items_of(regex.pattern(), names_of(lines@).take(i as int)),
        decreases n - i,
    {
        let ghost before = item_views(items@);
        proof {
            let upto = names_of(lines@).take(i + 1);
            assert(upto.drop_last() =~= names_of(lines@).take(i as int));
            assert(upto.last() == lines@[i as int]@);
        }
        match handle_one_line(regex, &lines[i]) {
            Some(item) => {
                items.push(item);
                assert(item_views(items@) =~= before.push(item@));
            },
            None => {},
        }
        i = i + 1;
    }
    assert(names_of(lines@).take(n as int) =~= names_of(lines@));
    items
}

/// `blocked` without every entry that is `domain`.
pub open spec fn without(blocked: Seq<Seq<char>>, domain: Seq<char>) -> Seq<Seq<char>>
    decreases blocked.len(),
{
    if blocked.len() == 0 {
        blocked
    } else if blocked.last() == domain {
        without(blocked.drop_last(), domain)
    } else {
        without(blocked.drop_last(), domain).push(blocked.last())
    }
}

/// The list of blocked names once `item` is laid over it: its domain is
/// added where its group blocks and the list does not have it yet, and
/// taken off where its group is any other.
pub open spec fn laid_over(blocked: Seq<Seq<char>>, item: FilterItemView) -> Seq<Seq<char>> {
    if item.group == block_group() {
        if blocked.contains(item.domain) {
            blocked
        } else {
            blocked.push(item.domain)
        }
    } else {
        without(blocked, item.domain)
    }
}

/// The list of blocked names once `items` are laid over it one after the
/// other.
pub open spec fn all_laid_over(blocked: Seq<Seq<char>>, items: Seq<FilterItemView>) -> Seq<
    Seq<char>,
>
    decreases items.len(),
{
    if items.len() == 0 {
        blocked
    } else {
        laid_over(all_laid_over(blocked, items.drop_last()), items.last())
    }
}

/// Whether `name` is one of `blocked`.
pub fn is_listed(blocked: &Vec<String>, name: &String) -> (found: bool)
    ensures
        found == names_of(blocked@).contains(name@),
{
    let n = blocked.len();
    let mut i: usize = 0;
    while i < n
        invariant
            n == blocked@.len(),
            i <= n,
            forall|k: int| 0 <= k < i ==> (#[trigger] names_of(blocked@)[k]) != name@,
        decreases n - i,
    {
        if blocked[i] == *name {
            assert(names_of(blocked@)[i as int] == name@);
            return true;
        }
        i = i + 1;
    }
    false
}

/// Lays `item` over the list `blocked`.
pub fn lay_over(blocked: Vec<String>, item: &FilterItem) -> (out: Vec<String>)
    ensures
        names_of(out@) == laid_over(names_of(blocked@), item@),
{
    let block = "#".to_owned();
    if item.group == block {
        let mut blocked = blocked;
        if !is_listed(&blocked, &item.domain) {
            let ghost before = names_of(blocked@);
            blocked.push(item.domain.clone());
            assert(names_of(blocked@) =~= before.push(item.domain@));
        }
        blocked
    } else {
        let mut out: Vec<String> = Vec::new();
        let n = blocked.len();
        let mut i: usize = 0;
        assert(names_of(blocked@).take(0) =~= Seq::<Seq<char>>::empty());
        assert(names_of(out@) =~= Seq::<Seq<char>>::empty());
        while i < n
            invariant
                n == blocked@.len(),
                i <= n,
                names_of(out@) == without(names_of(blocked@).take(i as int), item.domain@),
            decreases n - i,
        {
            let ghost before = names_of(out@);
            proof {
                let upto = names_of(blocked@).take(i + 1);
                assert(upto.drop_last() =~= names_of(blocked@).take(i as int));
                assert(upto.last() == blocked@[i as int]@);
            }
            if !(blocked[i] == item.domain) {
                out.push(blocked[i].clone());
                assert(names_of(out@) =~= before.push(blocked@[i as int]@));
            }
            i = i + 1;
        }
        assert(names_of(blocked@).take(n as int) =~= names_of(blocked@));
        out
    }
}

/// The items of all `sources`, those of the first source first.
pub open spec fn source_items(pattern: Seq<char>, sources: Seq<Vec<String>>) -> Seq<FilterItemView>
    decreases sources.len(),
{
    if sources.len() == 0 {
        Seq::<FilterItemView>::empty()
    } else {
        source_items(pattern, sources.drop_last()) + items_of(pattern, names_of(sources.last()@))
    }
}

/// Laying two runs of items over a list one after the other is laying over
/// it the one run followed by the other.
pub proof fn lemma_all_laid_over_concat(
    blocked: Seq<Seq<char>>,
    first: Seq<FilterItemView>,
    second: Seq<FilterItemView>,
)
    ensures
        all_laid_over(all_laid_over(blocked, first), second) == all_laid_over(
            blocked,
            first + second,
        ),
    decreases second.len(),
{
    if second.len() == 0 {
        assert(first + second =~= first);
    } else {
        lemma_all_laid_over_concat(blocked, first, second.drop_last());
        assert((first + second).drop_last() =~= first + second.drop_last());
        assert((first + second).last() == second.last());
    }
}

/// The names that the lists `sources` block together: the lines of each
/// list are read by `regex`, and every item is laid over what the lines
/// before it, in this list and the lists before, have left.
pub fn read_resources_to_filter(regex: &LineRegex, sources: &Vec<Vec<String>>) -> (blocked: Vec<String>)
    ensures
        names_of(blocked@) == all_laid_over(
            Seq::<Seq<char>>::empty(),
            source_items(regex.pattern(), sources@),
        ),
{
    let mut set: Vec<String> = Vec::new();
    let n = sources.len();
    let mut s: usize = 0;
    assert(names_of(set@) =~= Seq::<Seq<char>>::empty());
    assert(sources@.take(0) =~= Seq::<Vec<String>>::empty());
    while s < n
        invariant
            n == sources@.len(),
            s <= n,
            names_of(set@) == all_laid_over(
                Seq::<Seq<char>>::empty(),
                source_items(regex.pattern(), sources@.take(s as int)),
            ),
        decreases n - s,
    {
        let items = read_to_filter(regex, &sources[s]);
        let ghost start = names_of(set@);
        let ghost seen = source_items(regex.pattern(), sources@.take(s as int));
        let m = items.len();
        let mut i: usize = 0;
        assert(item_views(items@).take(0) =~= Seq::<FilterItemView>::empty());
        while i < m
            invariant
                m == items@.len(),
                i <= m,
                names_of(set@) == all_laid_over(start, item_views(items@).take(i as int)),
            decreases m - i,
        {
            proof {
                let upto = item_views(items@).take(i + 1);
                assert(upto.drop_last() =~= item_views(items@).take(i as int));
                assert(upto.last() == items@[i as int]@);
            }
            set = lay_over(set, &items[i]);
            i = i + 1;
        }
        proof {
            assert(item_views(items@).take(m as int) =~= item_views(items@));
            lemma_all_laid_over_concat(Seq::<Seq<char>>::empty(), seen, item_views(items@));
            let upto = sources@.take(s + 1);
            assert(upto.drop_last() =~= sources@.take(s as int));
            assert(upto.last() == sources@[s as int]);
        }
        s = s + 1;
    }
    assert(sources@.take(n as int) =~= sources@);
    set
}

/// Whether a suffix of `domain` that starts at the start of a label is one
/// of `blocked`: a name is blocked with every name below it.
pub open spec fn blocks(blocked: Seq<Seq<char>>, domain: Seq<char>) -> bool {
    exists|start: int|
        0 <= start <= domain.len() && (start == 0 || domain[start - 1] == '.')
            && #[trigger] blocked.contains(domain.skip(start))
}

/// The blocked names.
#[derive(Debug)]
pub struct Filter {
    set: Vec<String>,
}

impl View for Filter {
    type V = Seq<Seq<char>>;

    closed spec fn view(&self) -> Seq<Seq<char>> {
        names_of(self.set@)
    }
}

impl Filter {
    /// The filter that blocks the names `blocked`.
    pub fn from(blocked: Vec<String>) -> (filter: Self)
        ensures
            filter@ == names_of(blocked@),
    {
        Filter { set: blocked }
    }

    /// Whether `domain` or a name above it is blocked.
    pub fn contain(&self, domain: &String) -> (blocked: bool)
        ensures
            blocked == blocks(self@, domain@),
    {
        let name = domain.as_str();
        let n = name.unicode_len();
        let mut start: usize = 0;
        while start <= n
            invariant
                n == domain@.len(),
                name@ == domain@,
                start <= n + 1,
                forall|p: int|
                    0 <= p < start && p <= n && (p == 0 || domain@[p - 1] == '.')
                        ==> !(#[trigger] self@.contains(domain@.skip(p))),
            decreases n + 1 - start,
        {
            if start == 0 || name.get_char(start - 1) == '.' {
                let suffix = name.substring_char(start, n).to_owned();
                assert(suffix@ =~= domain@.skip(start as int));
                if is_listed(&self.set, &suffix) {
                    return true;
                }
            }
            if start == n {
                return false;
            }
            start = start + 1;
        }
        false
    }

    pub fn len(&self) -> (n: usize)
        ensures
            n == self@.len(),
    {
        self.set.len()
    }
}

} // verus!
