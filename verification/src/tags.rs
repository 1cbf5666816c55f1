//! Workshop item tags and their validation rules.
//!
//! A tag may be attached to a published item. The platform only accepts
//! tags that are non-empty, at most 255 characters long, and made of
//! printable ASCII or ASCII whitespace, with the comma reserved as the
//! separator character.

use vstd::prelude::*;

verus! {

/// The greatest number of characters a tag may have.
pub const TAG_MAX_LEN: usize = 255;

/// A single character is allowed in a tag when it is not a comma and is
/// either printable ASCII or ASCII whitespace.
pub open spec fn tag_char_ok(c: char) -> bool {
    &&& c != ','
    &&& {
        ||| ('!' <= c && c <= '~')
        ||| c == ' '
        ||| c == '\t'
        ||| c == '\n'
        ||| c == '\u{c}'
        ||| c == '\r'
    }
}

/// A whole tag is valid when it is non-empty, short enough, and every
/// character is allowed.
pub open spec fn valid_tag(s: Seq<char>) -> bool {
    &&& s.len() >= 1
    &&& s.len() <= TAG_MAX_LEN
    &&& forall|i: int| 0 <= i < s.len() ==> tag_char_ok(#[trigger] s[i])
}

/// Why a tag, or a list of tags, was rejected.
#[derive(Debug)]
pub enum TagError {
    /// The tag was the empty string.
    Empty,
    /// The tag had more than `TAG_MAX_LEN` characters.
    TooLong,
    /// The tag held a comma or a non-ASCII-printable character.
    InvalidChar,
    /// The tag is not among the predefined tags of the application.
    NotPredefined(Tag),
}

impl TagError {
    /// A short human-readable account of the error.
    pub fn message(&self) -> (r: &'static str)
        ensures
            r@ == self.spec_message(),
    {
        match self {
            TagError::Empty => "Empty tags are not allowed",
            TagError::TooLong => "Tag can only have a max length of 255 characters",
            TagError::InvalidChar => "Tag contains invalid characters",
            TagError::NotPredefined(_) => "Tag is not a predefined tag",
        }
    }

    /// The text `message` returns for each variant.
    pub open spec fn spec_message(&self) -> Seq<char> {
        match self {
            TagError::Empty => "Empty tags are not allowed"@,
            TagError::TooLong => "Tag can only have a max length of 255 characters"@,
            TagError::InvalidChar => "Tag contains invalid characters"@,
            TagError::NotPredefined(_) => "Tag is not a predefined tag"@,
        }
    }
}

/// A validated workshop tag.
#[derive(Debug)]
pub struct Tag {
    text: String,
}

impl View for Tag {
    type V = Seq<char>;

    closed spec fn view(&self) -> Seq<char> {
        self.text@
    }
}

impl Clone for Tag {
    fn clone(&self) -> (r: Self)
        ensures
            r@ == self@,
    {
        Tag { text: self.text.clone() }
    }
}

impl Tag {
    /// Validates `s` and wraps it as a tag. Exactly the valid strings are
    /// accepted; the error names the first rule broken, checked in the
    /// order: emptiness, length, characters.
    pub fn new(s: String) -> (r: Result<Tag, TagError>)
        ensures
            r is Ok <==> valid_tag(s@),
            r matches Ok(t) ==> t@ == s@,
            r matches Err(e) ==> match e {
                TagError::Empty => s@.len() == 0,
                TagError::TooLong => s@.len() > TAG_MAX_LEN,
                TagError::InvalidChar => {
                    &&& 1 <= s@.len() <= TAG_MAX_LEN
                    &&& exists|i: int| 0 <= i < s@.len() && !tag_char_ok(s@[i])
                },
                TagError::NotPredefined(_) => false,
            },
    {
        let len = s.as_str().unicode_len();
        if len == 0 {
            return Err(TagError::Empty);
        }
        if len > TAG_MAX_LEN {
            return Err(TagError::TooLong);
        }
        let mut i: usize = 0;
        while i < len
            invariant
                len == s@.len(),
                len <= TAG_MAX_LEN,
                i <= len,
                forall|j: int| 0 <= j < i ==> tag_char_ok(#[trigger] s@[j]),
            decreases len - i,
        {
            let c = s.as_str().get_char(i);
            let ok = c != ','
                && (('!' <= c && c <= '~')
                    || c == ' '
                    || c == '\t'
                    || c == '\n'
                    || c == '\u{c}'
                    || c == '\r');
            if !ok {
                assert(!tag_char_ok(s@[i as int]));
                return Err(TagError::InvalidChar);
            }
            i = i + 1;
        }
        Ok(Tag { text: s })
    }

    /// The tag's text.
    pub fn as_text(&self) -> (r: &str)
        ensures
            r@ == self@,
    {
        self.text.as_str()
    }

    /// Whether this tag occurs, by text, in `tags`.
    pub fn is_in_predefined_tags(&self, tags: &[Tag]) -> (r: bool)
        ensures
            r == exists|i: int| 0 <= i < tags@.len() && (#[trigger] tags@[i])@ == self@,
    {
        let n = tags.len();
        let mut i: usize = 0;
        while i < n
            invariant
                n == tags@.len(),
                i <= n,
                forall|j: int| 0 <= j < i ==> (#[trigger] tags@[j])@ != self@,
            decreases n - i,
        {
            let other: &Tag = &tags[i];
            if other.text == self.text {
                return true;
            }
            i = i + 1;
        }
        false
    }
}

/// Whether every tag of `tags` occurs, by text, in `predefined`.
pub open spec fn all_tags_predefined(tags: Seq<Seq<char>>, predefined: Seq<Seq<char>>) -> bool {
    forall|i: int| 0 <= i < tags.len() ==> predefined.contains(#[trigger] tags[i])
}

/// The first tag of `tags` that is not among `predefined`, if any.
pub open spec fn first_not_predefined(tags: Seq<Seq<char>>, predefined: Seq<Seq<char>>) -> Option<
    Seq<char>,
>
    decreases tags.len(),
{
    if tags.len() == 0 {
        None
    } else if !predefined.contains(tags[0]) {
        Some(tags[0])
    } else {
        first_not_predefined(tags.drop_first(), predefined)
    }
}

/// Checks that each of `tags` is one of the `predefined` tags. On failure
/// the error carries the first tag that is not.
pub fn check_tags_are_predefined(tags: &[Tag], predefined: &[Tag]) -> (r: Result<
    (),
    TagError,
>)
    ensures
        r is Ok <==> all_tags_predefined(
            tags@.map_values(|t: Tag| t@),
            predefined@.map_values(|t: Tag| t@),
        ),
        r matches Err(e) ==> e matches TagError::NotPredefined(bad) && Some(bad@)
            == first_not_predefined(
            tags@.map_values(|t: Tag| t@),
            predefined@.map_values(|t: Tag| t@),
        ),
{
    let ghost tag_views = tags@.map_values(|t: Tag| t@);
    let ghost pre_views = predefined@.map_values(|t: Tag| t@);
    let n = tags.len();
    let mut i: usize = 0;
    proof {
        assert(tag_views.skip(0) =~= tag_views);
    }
    while i < n
        invariant
            n == tags@.len(),
            i <= n,
            tag_views == tags@.map_values(|t: Tag| t@),
            pre_views == predefined@.map_values(|t: Tag| t@),
            forall|j: int| 0 <= j < i ==> pre_views.contains(#[trigger] tag_views[j]),
            first_not_predefined(tag_views, pre_views) == first_not_predefined(
                tag_views.skip(i as int),
                pre_views,
            ),
        decreases n - i,
    {
        let t: &Tag = &tags[i];
        let found = t.is_in_predefined_tags(predefined);
        proof {
            assert(tag_views[i as int] == t@);
            if found {
                let k = choose|k: int|
                    0 <= k < predefined@.len() && (#[trigger] predefined@[k])@ == t@;
                assert(pre_views[k] == t@);
            } else {
                assert forall|k: int| 0 <= k < pre_views.len() implies pre_views[k] != t@ by {
                    assert((#[trigger] predefined@[k])@ == pre_views[k]);
                }
            }
            assert(found == pre_views.contains(tag_views[i as int]));
            assert(tag_views.skip(i as int)[0] == tag_views[i as int]);
        }
        if !found {
            return Err(TagError::NotPredefined(t.clone()));
        }
        proof {
            assert(tag_views.skip(i as int).drop_first() =~= tag_views.skip(i as int + 1));
        }
        i = i + 1;
    }
    proof {
        assert(tag_views.skip(n as int).len() == 0);
    }
    Ok(())
}

} // verus!
