//! Directory entries and the comparison semantics of the sort engine:
//! eight sort modes, case-insensitive text keys, present-before-absent
//! ordering of optional keys, and a case-sensitive name tie-break that
//! makes the order total and deterministic.

use vstd::prelude::*;
use vstd::string::{StrSliceExecFns, StringExecFns};

use crate::mditem::{MdItemAttrs, MdItemUserTag};
use crate::text::{
    chars_of, cmp_chars, lemma_seq_cmp_eq, lemma_seq_cmp_flip, lemma_seq_cmp_trans, lower_of,
    lowercase, order_of, seq_cmp, str_eq, Order,
};

verus! {

/// The selectable sort key.
#[derive(Clone, Copy, PartialEq, Eq, Structural, Debug)]
pub enum SortMode {
    NameAsc,
    KindAsc,
    LastOpenedAsc,
    AddedAsc,
    ModifiedAsc,
    CreatedAsc,
    SizeAsc,
    TagsAsc,
}

/// The sort mode a textual token selects, if any.
pub open spec fn from_str_spec(s: Seq<char>) -> Option<SortMode> {
    if s == "name-asc"@ {
        Some(SortMode::NameAsc)
    } else if s == "kind-asc"@ {
        Some(SortMode::KindAsc)
    } else if s == "last-opened-asc"@ {
        Some(SortMode::LastOpenedAsc)
    } else if s == "added-asc"@ {
        Some(SortMode::AddedAsc)
    } else if s == "modified-asc"@ {
        Some(SortMode::ModifiedAsc)
    } else if s == "created-asc"@ {
        Some(SortMode::CreatedAsc)
    } else if s == "size-asc"@ {
        Some(SortMode::SizeAsc)
    } else if s == "tags-asc"@ {
        Some(SortMode::TagsAsc)
    } else {
        None
    }
}

impl SortMode {
    /// Reads a sort mode from its textual token; an unrecognized token
    /// yields nothing.
    pub fn from_str(value: &str) -> (r: Option<SortMode>)
        ensures
            r == from_str_spec(value@),
    {
        if str_eq(value, "name-asc") {
            Some(SortMode::NameAsc)
        } else if str_eq(value, "kind-asc") {
            Some(SortMode::KindAsc)
        } else if str_eq(value, "last-opened-asc") {
            Some(SortMode::LastOpenedAsc)
        } else if str_eq(value, "added-asc") {
            Some(SortMode::AddedAsc)
        } else if str_eq(value, "modified-asc") {
            Some(SortMode::ModifiedAsc)
        } else if str_eq(value, "created-asc") {
            Some(SortMode::CreatedAsc)
        } else if str_eq(value, "size-asc") {
            Some(SortMode::SizeAsc)
        } else if str_eq(value, "tags-asc") {
            Some(SortMode::TagsAsc)
        } else {
            None
        }
    }
}

impl Default for SortMode {
    fn default() -> (r: Self)
        ensures
            r == SortMode::NameAsc,
    {
        SortMode::NameAsc
    }
}

/// The coarse classification of one directory child at enumeration
/// time; symlinks are reported as such, not followed.
#[derive(Clone, Copy, PartialEq, Eq, Structural, Debug)]
pub enum ItemKind {
    Directory,
    File,
    Symlink,
    Other,
}

/// One listed directory child: filesystem data and normalized metadata.
pub struct Item {
    pub typ: ItemKind,
    pub name: String,
    pub path: String,
    pub size: u64,
    pub md_attrs: MdItemAttrs,
}

/// The listing configuration.
pub struct ReadDirOptions {
    pub skip_dotfiles: bool,
    pub sort_directories_first: bool,
    pub sort_mode: SortMode,
}

impl Default for ReadDirOptions {
    fn default() -> (r: Self)
        ensures
            r.skip_dotfiles,
            r.sort_directories_first,
            r.sort_mode == SortMode::NameAsc,
    {
        ReadDirOptions {
            skip_dotfiles: true,
            sort_directories_first: true,
            sort_mode: SortMode::NameAsc,
        }
    }
}

/// The characters of an optional borrowed string.
pub open spec fn opt_view(o: Option<&str>) -> Option<Seq<char>> {
    match o {
        Some(s) => Some(s@),
        None => None,
    }
}

/// The characters of an optional owned string.
pub open spec fn opt_string_view(o: Option<String>) -> Option<Seq<char>> {
    match o {
        Some(s) => Some(s@),
        None => None,
    }
}

/// Case-insensitive three-way comparison of optional text keys: both
/// sides are compared by their lowercase folding, and a present value
/// orders before an absent one.
pub open spec fn opt_str_cmp(a: Option<Seq<char>>, b: Option<Seq<char>>) -> int {
    match (a, b) {
        (Some(l), Some(r)) => seq_cmp(lower_of(l), lower_of(r)),
        (Some(_), None) => -1,
        (None, Some(_)) => 1,
        (None, None) => 0,
    }
}

/// Three-way comparison of two numbers.
pub open spec fn num_cmp(l: u64, r: u64) -> int {
    if l < r {
        -1
    } else if l > r {
        1
    } else {
        0
    }
}

/// Three-way comparison of optional numeric keys: a present value
/// orders before an absent one.
pub open spec fn opt_num_cmp(a: Option<u64>, b: Option<u64>) -> int {
    match (a, b) {
        (Some(l), Some(r)) => num_cmp(l, r),
        (Some(_), None) => -1,
        (None, Some(_)) => 1,
        (None, None) => 0,
    }
}

/// Compares optional text values case-insensitively, present before
/// absent.
pub fn compare_strings(left: Option<&str>, right: Option<&str>) -> (r: Order)
    ensures
        r == order_of(opt_str_cmp(opt_view(left), opt_view(right))),
{
    match (left, right) {
        (Some(l), Some(rt)) => {
            let ll = lowercase(l);
            let lr = lowercase(rt);
            let cl = chars_of(ll.as_str());
            let cr = chars_of(lr.as_str());
            cmp_chars(&cl, &cr)
        },
        (Some(_), None) => Order::Less,
        (None, Some(_)) => Order::Greater,
        (None, None) => Order::Equal,
    }
}

/// Compares optional numeric values, present before absent.
pub fn compare_numbers(left: Option<u64>, right: Option<u64>) -> (r: Order)
    ensures
        r == order_of(opt_num_cmp(left, right)),
{
    match (left, right) {
        (Some(l), Some(rt)) => if l < rt {
            Order::Less
        } else if l > rt {
            Order::Greater
        } else {
            Order::Equal
        },
        (Some(_), None) => Order::Less,
        (None, Some(_)) => Order::Greater,
        (None, None) => Order::Equal,
    }
}

/// The "date added" key: the filesystem content-change date, falling
/// back to the filesystem creation date when the former is absent.
pub open spec fn date_added_spec(a: Item) -> Option<u64> {
    match a.md_attrs.fs_content_change_date {
        Some(d) => Some(d),
        None => a.md_attrs.fs_creation_date,
    }
}

/// The "date added" key of an entry.
pub fn date_added_value(item: &Item) -> (r: Option<u64>)
    ensures
        r == date_added_spec(*item),
{
    match item.md_attrs.fs_content_change_date {
        Some(d) => Some(d),
        None => item.md_attrs.fs_creation_date,
    }
}

/// The names of a tag sequence, in order.
pub open spec fn tag_names(tags: Seq<MdItemUserTag>) -> Seq<Seq<char>> {
    tags.map(|i: int, t: MdItemUserTag| t.name@)
}

/// The given names joined with a NUL separator, which cannot appear in
/// a name segment of a raw tag encoding.
pub open spec fn joined(names: Seq<Seq<char>>) -> Seq<char>
    decreases names.len(),
{
    if names.len() == 0 {
        Seq::empty()
    } else if names.len() == 1 {
        names[0]
    } else {
        joined(names.drop_last()) + seq!['\u{0}'] + names.last()
    }
}

/// The synthesized tags sort key: the joined tag names, or a single
/// maximal character when there are no tags, so that untagged entries
/// order after tagged ones.
pub open spec fn tags_key_spec(tags: Seq<MdItemUserTag>) -> Seq<char> {
    if tags.len() == 0 {
        seq!['\u{ffff}']
    } else {
        joined(tag_names(tags))
    }
}

/// Builds the tags sort key of an entry.
pub fn tags_sort_key(tags: &Vec<MdItemUserTag>) -> (r: String)
    ensures
        r@ == tags_key_spec(tags@),
{
    if tags.len() == 0 {
        let r = String::from_str("\u{ffff}");
        proof {
            reveal_strlit("\u{ffff}");
            assert(r@ =~= seq!['\u{ffff}']);
        }
        r
    } else {
        let ghost names = tag_names(tags@);
        let mut out = String::new();
        let mut i: usize = 0;
        while i < tags.len()
            invariant
                i <= tags@.len(),
                names == tag_names(tags@),
                names.len() == tags@.len(),
                out@ == joined(names.take(i as int)),
            decreases tags@.len() - i,
        {
            if i > 0 {
                out.append("\u{0}");
            }
            out.append(tags[i].name.as_str());
            proof {
                reveal_strlit("\u{0}");
                assert(names.take(i + 1).drop_last() =~= names.take(i as int));
                assert(names.take(i + 1).last() == names[i as int]);
                assert(names[i as int] == tags@[i as int].name@);
                if i == 0 {
                    assert(out@ =~= joined(names.take(1)));
                } else {
                    assert(("\u{0}")@ =~= seq!['\u{0}']);
                    assert(out@ =~= joined(names.take(i as int)) + seq!['\u{0}']
                        + names[i as int]);
                }
            }
            i = i + 1;
        }
        proof {
            assert(names.take(names.len() as int) =~= names);
        }
        out
    }
}

/// The primary three-way comparison of two entries under a sort mode.
pub open spec fn primary_cmp(a: Item, b: Item, mode: SortMode) -> int {
    match mode {
        SortMode::NameAsc => opt_str_cmp(Some(a.name@), Some(b.name@)),
        SortMode::KindAsc => opt_str_cmp(
            opt_string_view(a.md_attrs.kind),
            opt_string_view(b.md_attrs.kind),
        ),
        SortMode::LastOpenedAsc => opt_num_cmp(
            a.md_attrs.last_used_date,
            b.md_attrs.last_used_date,
        ),
        SortMode::AddedAsc => opt_num_cmp(date_added_spec(a), date_added_spec(b)),
        SortMode::ModifiedAsc => opt_num_cmp(
            a.md_attrs.content_modification_date,
            b.md_attrs.content_modification_date,
        ),
        SortMode::CreatedAsc => opt_num_cmp(
            a.md_attrs.fs_creation_date,
            b.md_attrs.fs_creation_date,
        ),
        SortMode::SizeAsc => num_cmp(a.size, b.size),
        SortMode::TagsAsc => opt_str_cmp(
            Some(tags_key_spec(a.md_attrs.user_tags@)),
            Some(tags_key_spec(b.md_attrs.user_tags@)),
        ),
    }
}

/// The complete three-way comparison of two entries under a sort mode:
/// the primary key, with ties broken by case-sensitive code-point order
/// of the names.
pub open spec fn item_cmp(a: Item, b: Item, mode: SortMode) -> int {
    let p = primary_cmp(a, b, mode);
    if p != 0 {
        p
    } else {
        seq_cmp(a.name@, b.name@)
    }
}

/// The comparison the sort engine orders by: with directories first,
/// a directory orders before every non-directory, and entries of the
/// same class compare by `item_cmp`.
pub open spec fn full_cmp(a: Item, b: Item, mode: SortMode, dirs_first: bool) -> int {
    if dirs_first && a.typ is Directory && !(b.typ is Directory) {
        -1
    } else if dirs_first && !(a.typ is Directory) && b.typ is Directory {
        1
    } else {
        item_cmp(a, b, mode)
    }
}

/// The borrowed form of an optional owned string.
fn opt_as_str(o: &Option<String>) -> (r: Option<&str>)
    ensures
        opt_view(r) == opt_string_view(*o),
{
    match o {
        Some(s) => Some(s.as_str()),
        None => None,
    }
}

/// Compares two entries under a sort mode, with the name tie-break.
pub fn compare_items(a: &Item, b: &Item, mode: SortMode) -> (r: Order)
    ensures
        r == order_of(item_cmp(*a, *b, mode)),
{
    let primary = match mode {
        SortMode::NameAsc => compare_strings(Some(a.name.as_str()), Some(b.name.as_str())),
        SortMode::KindAsc => compare_strings(
            opt_as_str(&a.md_attrs.kind),
            opt_as_str(&b.md_attrs.kind),
        ),
        SortMode::LastOpenedAsc => compare_numbers(
            a.md_attrs.last_used_date,
            b.md_attrs.last_used_date,
        ),
        SortMode::AddedAsc => compare_numbers(date_added_value(a), date_added_value(b)),
        SortMode::ModifiedAsc => compare_numbers(
            a.md_attrs.content_modification_date,
            b.md_attrs.content_modification_date,
        ),
        SortMode::CreatedAsc => compare_numbers(
            a.md_attrs.fs_creation_date,
            b.md_attrs.fs_creation_date,
        ),
        SortMode::SizeAsc => if a.size < b.size {
            Order::Less
        } else if a.size > b.size {
            Order::Greater
        } else {
            Order::Equal
        },
        SortMode::TagsAsc => {
            let ka = tags_sort_key(&a.md_attrs.user_tags);
            let kb = tags_sort_key(&b.md_attrs.user_tags);
            compare_strings(Some(ka.as_str()), Some(kb.as_str()))
        },
    };
    match primary {
        Order::Equal => {
            let ca = chars_of(a.name.as_str());
            let cb = chars_of(b.name.as_str());
            cmp_chars(&ca, &cb)
        },
        _ => primary,
    }
}

proof fn lemma_opt_str_flip(a: Option<Seq<char>>, b: Option<Seq<char>>)
    ensures
        opt_str_cmp(a, b) == -opt_str_cmp(b, a),
{
    match (a, b) {
        (Some(l), Some(r)) => {
            lemma_seq_cmp_flip(lower_of(l), lower_of(r));
        },
        _ => {},
    }
}

proof fn lemma_opt_str_trans(a: Option<Seq<char>>, b: Option<Seq<char>>, c: Option<Seq<char>>)
    ensures
        opt_str_cmp(a, b) == 0 && opt_str_cmp(b, c) == 0 ==> opt_str_cmp(a, c) == 0,
        opt_str_cmp(a, b) < 0 && opt_str_cmp(b, c) <= 0 ==> opt_str_cmp(a, c) < 0,
        opt_str_cmp(a, b) <= 0 && opt_str_cmp(b, c) < 0 ==> opt_str_cmp(a, c) < 0,
{
    match (a, b, c) {
        (Some(x), Some(y), Some(z)) => {
            lemma_seq_cmp_trans(lower_of(x), lower_of(y), lower_of(z));
            lemma_seq_cmp_eq(lower_of(x), lower_of(y));
            lemma_seq_cmp_eq(lower_of(y), lower_of(z));
            lemma_seq_cmp_eq(lower_of(x), lower_of(z));
        },
        _ => {},
    }
}

proof fn lemma_primary_flip(a: Item, b: Item, mode: SortMode)
    ensures
        primary_cmp(a, b, mode) == -primary_cmp(b, a, mode),
{
    match mode {
        SortMode::NameAsc => {
            lemma_opt_str_flip(Some(a.name@), Some(b.name@));
        },
        SortMode::KindAsc => {
            lemma_opt_str_flip(opt_string_view(a.md_attrs.kind), opt_string_view(b.md_attrs.kind));
        },
        SortMode::TagsAsc => {
            lemma_opt_str_flip(
                Some(tags_key_spec(a.md_attrs.user_tags@)),
                Some(tags_key_spec(b.md_attrs.user_tags@)),
            );
        },
        _ => {},
    }
}

proof fn lemma_primary_trans(a: Item, b: Item, c: Item, mode: SortMode)
    ensures
        primary_cmp(a, b, mode) == 0 && primary_cmp(b, c, mode) == 0 ==> primary_cmp(a, c, mode)
            == 0,
        primary_cmp(a, b, mode) < 0 && primary_cmp(b, c, mode) <= 0 ==> primary_cmp(a, c, mode)
            < 0,
        primary_cmp(a, b, mode) <= 0 && primary_cmp(b, c, mode) < 0 ==> primary_cmp(a, c, mode)
            < 0,
{
    match mode {
        SortMode::NameAsc => {
            lemma_opt_str_trans(Some(a.name@), Some(b.name@), Some(c.name@));
        },
        SortMode::KindAsc => {
            lemma_opt_str_trans(
                opt_string_view(a.md_attrs.kind),
                opt_string_view(b.md_attrs.kind),
                opt_string_view(c.md_attrs.kind),
            );
        },
        SortMode::TagsAsc => {
            lemma_opt_str_trans(
                Some(tags_key_spec(a.md_attrs.user_tags@)),
                Some(tags_key_spec(b.md_attrs.user_tags@)),
                Some(tags_key_spec(c.md_attrs.user_tags@)),
            );
        },
        _ => {},
    }
}

/// Swapping the arguments negates the sort comparison: the order has no
/// bias toward either side.
pub proof fn lemma_order_flip(a: Item, b: Item, mode: SortMode, dirs_first: bool)
    ensures
        full_cmp(a, b, mode, dirs_first) == -full_cmp(b, a, mode, dirs_first),
{
    lemma_primary_flip(a, b, mode);
    lemma_seq_cmp_flip(a.name@, b.name@);
}

/// The sort comparison is total: of any two entries, at least one
/// orders no later than the other.
pub proof fn lemma_order_total(a: Item, b: Item, mode: SortMode, dirs_first: bool)
    ensures
        full_cmp(a, b, mode, dirs_first) <= 0 || full_cmp(b, a, mode, dirs_first) <= 0,
{
    lemma_order_flip(a, b, mode, dirs_first);
}

/// The sort comparison is transitive, so the engine's output order is a
/// total order on entries.
pub proof fn lemma_order_trans(a: Item, b: Item, c: Item, mode: SortMode, dirs_first: bool)
    requires
        full_cmp(a, b, mode, dirs_first) <= 0,
        full_cmp(b, c, mode, dirs_first) <= 0,
    ensures
        full_cmp(a, c, mode, dirs_first) <= 0,
{
    lemma_primary_trans(a, b, c, mode);
    lemma_seq_cmp_trans(a.name@, b.name@, c.name@);
    lemma_seq_cmp_eq(a.name@, b.name@);
    lemma_seq_cmp_eq(b.name@, c.name@);
    lemma_seq_cmp_eq(a.name@, c.name@);
}

/// Two entries that compare as a tie carry identical primary and
/// secondary keys, so they compare alike against every third entry:
/// the sorted output is deterministic, never dependent on input order.
pub proof fn lemma_ties_interchangeable(
    a: Item,
    b: Item,
    c: Item,
    mode: SortMode,
    dirs_first: bool,
)
    requires
        full_cmp(a, b, mode, dirs_first) == 0,
    ensures
        full_cmp(a, c, mode, dirs_first) == full_cmp(b, c, mode, dirs_first),
        full_cmp(c, a, mode, dirs_first) == full_cmp(c, b, mode, dirs_first),
{
    lemma_seq_cmp_eq(a.name@, b.name@);
    match mode {
        SortMode::KindAsc => {
            match (opt_string_view(a.md_attrs.kind), opt_string_view(b.md_attrs.kind)) {
                (Some(x), Some(y)) => {
                    lemma_seq_cmp_eq(lower_of(x), lower_of(y));
                },
                _ => {},
            }
        },
        SortMode::TagsAsc => {
            lemma_seq_cmp_eq(
                lower_of(tags_key_spec(a.md_attrs.user_tags@)),
                lower_of(tags_key_spec(b.md_attrs.user_tags@)),
            );
        },
        _ => {},
    }
    lemma_order_flip(c, a, mode, dirs_first);
    lemma_order_flip(c, b, mode, dirs_first);
    lemma_order_flip(a, c, mode, dirs_first);
    lemma_order_flip(b, c, mode, dirs_first);
}

/// Whether an entry has a present value for the active sort key; the
/// name, size and tags keys are never absent.
pub open spec fn sort_key_present(a: Item, mode: SortMode) -> bool {
    match mode {
        SortMode::NameAsc => true,
        SortMode::KindAsc => a.md_attrs.kind is Some,
        SortMode::LastOpenedAsc => a.md_attrs.last_used_date is Some,
        SortMode::AddedAsc => date_added_spec(a) is Some,
        SortMode::ModifiedAsc => a.md_attrs.content_modification_date is Some,
        SortMode::CreatedAsc => a.md_attrs.fs_creation_date is Some,
        SortMode::SizeAsc => true,
        SortMode::TagsAsc => true,
    }
}

/// Of two entries with the same directory classification, one with a
/// present value for the active sort key orders strictly before one
/// whose value is absent.
pub proof fn lemma_present_before_absent(a: Item, b: Item, mode: SortMode, dirs_first: bool)
    requires
        (a.typ is Directory) <==> (b.typ is Directory),
        sort_key_present(a, mode),
        !sort_key_present(b, mode),
    ensures
        full_cmp(a, b, mode, dirs_first) < 0,
{
}

} // verus!
