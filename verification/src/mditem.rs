//! The normalized metadata record of one path: user tags parsed from
//! their raw encoding, optional timestamps, optional text fields and an
//! optional visibility flag, together with the data-driven assignment of
//! one normalized raw value to one record field.

use vstd::prelude::*;
use vstd::string::StrSliceExecFns;

use crate::text::{chars_of, parse_u8_range, parse_uint_spec, trim_bounds, trim_spec};
use crate::utils::{
    to_bool_opt, to_bool_opt_spec, to_string_opt, to_string_opt_spec, to_string_vec,
    to_string_vec_spec, to_unix_seconds_opt, to_unix_seconds_spec, RawValue,
};

verus! {

/// One user-assigned tag: a trimmed name and an optional color index.
pub struct MdItemUserTag {
    pub name: String,
    pub color_index: Option<u8>,
}

/// The index of the first line separator in `s`, or `s.len()` if none.
pub open spec fn first_sep(s: Seq<char>) -> int
    decreases s.len(),
{
    if s.len() == 0 {
        0
    } else if s[0] == '\n' {
        0
    } else {
        1 + first_sep(s.drop_first())
    }
}

/// One past the index of the last line separator in `s`, or `0` if none.
pub open spec fn last_sep_end(s: Seq<char>) -> int
    decreases s.len(),
{
    if s.len() == 0 {
        0
    } else if s.last() == '\n' {
        s.len() as int
    } else {
        last_sep_end(s.drop_last())
    }
}

/// The name a raw tag encoding parses to: the segment before the first
/// line separator, trimmed of whitespace.
pub open spec fn tag_name_spec(s: Seq<char>) -> Seq<char> {
    trim_spec(s.take(first_sep(s)))
}

/// The color index a raw tag encoding parses to: the segment after the
/// last line separator, read as a decimal `u8`; absent on parse failure.
pub open spec fn tag_color_spec(s: Seq<char>) -> Option<u8> {
    match parse_uint_spec(s.skip(last_sep_end(s)), u8::MAX as int) {
        Some(x) => Some(x as u8),
        None => None,
    }
}

proof fn lemma_first_sep_at(s: Seq<char>, f: int)
    requires
        0 <= f <= s.len(),
        forall|k: int| 0 <= k < f ==> s[k] != '\n',
        f < s.len() ==> s[f] == '\n',
    ensures
        first_sep(s) == f,
    decreases s.len(),
{
    if s.len() == 0 {
    } else if f == 0 {
    } else {
        assert(s[0] != '\n');
        lemma_first_sep_at(s.drop_first(), f - 1);
    }
}

proof fn lemma_last_sep_at(s: Seq<char>, l: int)
    requires
        0 <= l <= s.len(),
        forall|k: int| l <= k < s.len() ==> s[k] != '\n',
        l > 0 ==> s[l - 1] == '\n',
    ensures
        last_sep_end(s) == l,
    decreases s.len(),
{
    if s.len() == 0 {
    } else if l == s.len() {
        assert(s.last() == '\n');
    } else {
        assert(s.last() != '\n');
        assert(forall|k: int| l <= k < s.len() - 1 ==> s.drop_last()[k] == s[k]);
        lemma_last_sep_at(s.drop_last(), l);
    }
}

impl MdItemUserTag {
    /// Parses one raw tag encoding. Parsing never fails: an unparsable
    /// color segment only leaves the color index absent.
    pub fn from_raw(raw: String) -> (r: MdItemUserTag)
        ensures
            r.name@ == tag_name_spec(raw@),
            r.color_index == tag_color_spec(raw@),
    {
        let s = raw.as_str();
        let v = chars_of(s);
        let n: usize = v.len();
        let mut f: usize = 0;
        while f < n && v[f] != '\n'
            invariant
                0 <= f <= n == v@.len(),
                v@ == s@,
                forall|k: int| 0 <= k < f ==> v@[k] != '\n',
            decreases n - f,
        {
            f = f + 1;
        }
        proof {
            lemma_first_sep_at(v@, f as int);
        }
        let (i, j) = trim_bounds(&v, 0, f);
        proof {
            assert(v@.subrange(0, f as int) =~= v@.take(f as int));
        }
        let name = s.substring_char(i, j);
        let mut l: usize = n;
        while l > 0 && v[l - 1] != '\n'
            invariant
                0 <= l <= n == v@.len(),
                forall|k: int| l <= k < n ==> v@[k] != '\n',
            decreases l,
        {
            l = l - 1;
        }
        proof {
            lemma_last_sep_at(v@, l as int);
            assert(v@.subrange(l as int, n as int) =~= v@.skip(l as int));
        }
        let color_index = parse_u8_range(&v, l, n);
        MdItemUserTag { name: name.to_owned(), color_index }
    }
}

/// The normalized, typed view of a path's desktop metadata. Every field
/// is independently optional; absence means the provider reported no
/// usable value, never a present-but-empty one.
pub struct MdItemAttrs {
    pub user_tags: Vec<MdItemUserTag>,
    pub attribute_change_date: Option<u64>,
    pub content_creation_date: Option<u64>,
    pub content_modification_date: Option<u64>,
    pub content_type: Option<String>,
    pub finder_comment: Option<String>,
    pub kind: Option<String>,
    pub last_used_date: Option<u64>,
    pub fs_content_change_date: Option<u64>,
    pub fs_creation_date: Option<u64>,
    pub fs_invisible: Option<bool>,
}

impl MdItemAttrs {
    /// A record with every field absent and no tags.
    pub open spec fn is_empty_spec(self) -> bool {
        &&& self.user_tags@ == Seq::<MdItemUserTag>::empty()
        &&& self.attribute_change_date is None
        &&& self.content_creation_date is None
        &&& self.content_modification_date is None
        &&& self.content_type is None
        &&& self.finder_comment is None
        &&& self.kind is None
        &&& self.last_used_date is None
        &&& self.fs_content_change_date is None
        &&& self.fs_creation_date is None
        &&& self.fs_invisible is None
    }
}

impl Default for MdItemAttrs {
    /// The all-absent record, used when the provider has no record for a
    /// path at all.
    fn default() -> (r: Self)
        ensures
            r.is_empty_spec(),
    {
        let r = MdItemAttrs {
            user_tags: Vec::new(),
            attribute_change_date: None,
            content_creation_date: None,
            content_modification_date: None,
            content_type: None,
            finder_comment: None,
            kind: None,
            last_used_date: None,
            fs_content_change_date: None,
            fs_creation_date: None,
            fs_invisible: None,
        };
        proof {
            assert(r.user_tags@ =~= Seq::<MdItemUserTag>::empty());
        }
        r
    }
}

/// The record field one requested attribute normalizes into.
#[derive(Clone, Copy, PartialEq, Eq, Structural, Debug)]
pub enum AttrTarget {
    UserTags,
    AttributeChangeDate,
    ContentCreationDate,
    ContentModificationDate,
    ContentType,
    FinderComment,
    Kind,
    LastUsedDate,
    FsContentChangeDate,
    FsCreationDate,
    FsInvisible,
}

/// Whether `tags` is exactly the parse of the raw encodings `raws`, in
/// order.
pub open spec fn tags_match(tags: Seq<MdItemUserTag>, raws: Seq<String>) -> bool {
    &&& tags.len() == raws.len()
    &&& forall|i: int|
        0 <= i < raws.len() ==> (#[trigger] tags[i]).name@ == tag_name_spec(raws[i]@)
            && tags[i].color_index == tag_color_spec(raws[i]@)
}

/// Parses every raw tag encoding of `raws`, preserving order.
pub fn parse_tags(raws: Vec<String>) -> (r: Vec<MdItemUserTag>)
    ensures
        tags_match(r@, raws@),
{
    let mut out: Vec<MdItemUserTag> = Vec::new();
    let mut i: usize = 0;
    while i < raws.len()
        invariant
            i <= raws.len(),
            out@.len() == i,
            tags_match(out@, raws@.take(i as int)),
        decreases raws.len() - i,
    {
        let raw = raws[i].clone();
        proof {
            assert(raw@ == raws@[i as int]@);
        }
        out.push(MdItemUserTag::from_raw(raw));
        i = i + 1;
    }
    proof {
        assert(raws@.take(raws@.len() as int) =~= raws@);
    }
    out
}

/// All fields of `a` and `b` agree, except possibly the one `t` selects.
pub open spec fn eq_except(a: MdItemAttrs, b: MdItemAttrs, t: AttrTarget) -> bool {
    &&& (t != AttrTarget::UserTags ==> a.user_tags == b.user_tags)
    &&& (t != AttrTarget::AttributeChangeDate ==> a.attribute_change_date
        == b.attribute_change_date)
    &&& (t != AttrTarget::ContentCreationDate ==> a.content_creation_date
        == b.content_creation_date)
    &&& (t != AttrTarget::ContentModificationDate ==> a.content_modification_date
        == b.content_modification_date)
    &&& (t != AttrTarget::ContentType ==> a.content_type == b.content_type)
    &&& (t != AttrTarget::FinderComment ==> a.finder_comment == b.finder_comment)
    &&& (t != AttrTarget::Kind ==> a.kind == b.kind)
    &&& (t != AttrTarget::LastUsedDate ==> a.last_used_date == b.last_used_date)
    &&& (t != AttrTarget::FsContentChangeDate ==> a.fs_content_change_date
        == b.fs_content_change_date)
    &&& (t != AttrTarget::FsCreationDate ==> a.fs_creation_date == b.fs_creation_date)
    &&& (t != AttrTarget::FsInvisible ==> a.fs_invisible == b.fs_invisible)
}

/// The field `t` selects in `a` holds the normalization of `value` for
/// that field's type.
pub open spec fn target_value_set(a: MdItemAttrs, t: AttrTarget, value: RawValue) -> bool {
    match t {
        AttrTarget::UserTags => tags_match(a.user_tags@, to_string_vec_spec(value)),
        AttrTarget::AttributeChangeDate => a.attribute_change_date == to_unix_seconds_spec(value),
        AttrTarget::ContentCreationDate => a.content_creation_date == to_unix_seconds_spec(value),
        AttrTarget::ContentModificationDate => a.content_modification_date
            == to_unix_seconds_spec(value),
        AttrTarget::ContentType => a.content_type == to_string_opt_spec(value),
        AttrTarget::FinderComment => a.finder_comment == to_string_opt_spec(value),
        AttrTarget::Kind => a.kind == to_string_opt_spec(value),
        AttrTarget::LastUsedDate => a.last_used_date == to_unix_seconds_spec(value),
        AttrTarget::FsContentChangeDate => a.fs_content_change_date
            == to_unix_seconds_spec(value),
        AttrTarget::FsCreationDate => a.fs_creation_date == to_unix_seconds_spec(value),
        AttrTarget::FsInvisible => a.fs_invisible == to_bool_opt_spec(value),
    }
}

/// Normalizes one raw attribute value and writes it into the record
/// field selected by `target`, leaving every other field untouched.
pub fn apply_attr(attrs: &mut MdItemAttrs, target: AttrTarget, value: RawValue)
    ensures
        eq_except(*old(attrs), *final(attrs), target),
        target_value_set(*final(attrs), target, value),
{
    match target {
        AttrTarget::UserTags => {
            attrs.user_tags = parse_tags(to_string_vec(value));
        },
        AttrTarget::AttributeChangeDate => {
            attrs.attribute_change_date = to_unix_seconds_opt(&value);
        },
        AttrTarget::ContentCreationDate => {
            attrs.content_creation_date = to_unix_seconds_opt(&value);
        },
        AttrTarget::ContentModificationDate => {
            attrs.content_modification_date = to_unix_seconds_opt(&value);
        },
        AttrTarget::ContentType => {
            attrs.content_type = to_string_opt(value);
        },
        AttrTarget::FinderComment => {
            attrs.finder_comment = to_string_opt(value);
        },
        AttrTarget::Kind => {
            attrs.kind = to_string_opt(value);
        },
        AttrTarget::LastUsedDate => {
            attrs.last_used_date = to_unix_seconds_opt(&value);
        },
        AttrTarget::FsContentChangeDate => {
            attrs.fs_content_change_date = to_unix_seconds_opt(&value);
        },
        AttrTarget::FsCreationDate => {
            attrs.fs_creation_date = to_unix_seconds_opt(&value);
        },
        AttrTarget::FsInvisible => {
            attrs.fs_invisible = to_bool_opt(&value);
        },
    }
}

} // verus!
