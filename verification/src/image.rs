//! Image references: the registry, repository path, name and tag or digest that
//! identify a container image, and the canonical text that stands for them in
//! cache keys and command lines.

use vstd::prelude::*;
use vstd::string::StringExecFns;
use docker_registry_client::{Digest, Image, Tag};
use crate::text::{chars_of, string_of};

verus! {

/// How a reference addresses the image within its repository.
#[derive(Debug, Clone, PartialEq, Eq, Hash)]
pub enum Identifier {
    Tag(String),
    Digest(String),
}

/// An identifier, as mathematical values.
pub enum IdentifierView {
    Tag(Seq<char>),
    Digest(Seq<char>),
}

impl View for Identifier {
    type V = IdentifierView;

    open spec fn view(&self) -> IdentifierView {
        match self {
            Identifier::Tag(tag) => IdentifierView::Tag(tag@),
            Identifier::Digest(digest) => IdentifierView::Digest(digest@),
        }
    }
}

/// An image reference, as mathematical values.
pub struct ImageView {
    pub registry: Seq<char>,
    pub repository: Option<Seq<char>>,
    pub image_name: Seq<char>,
    pub identifier: IdentifierView,
}

/// A reference to a container image. It addresses the image either by tag or
/// by digest, never by both.
#[derive(Debug, Clone, PartialEq, Eq, Hash)]
pub struct ImageReference {
    /// The domain of the registry.
    pub registry: String,
    /// The path between registry and image name, without its trailing slash.
    pub repository: Option<String>,
    pub image_name: String,
    pub identifier: Identifier,
}

impl View for ImageReference {
    type V = ImageView;

    open spec fn view(&self) -> ImageView {
        ImageView {
            registry: self.registry@,
            repository: match self.repository {
                Some(repository) => Some(repository@),
                None => None,
            },
            image_name: self.image_name@,
            identifier: self.identifier@,
        }
    }
}

/// The parts of a parsed reference, as mathematical values.
pub struct ImagePartsView {
    pub registry: Seq<char>,
    pub namespace: Option<Seq<char>>,
    pub repository: Option<Seq<char>>,
    pub name: Seq<char>,
    pub tag: Option<Seq<char>>,
    pub digest: Option<Seq<char>>,
}

/// The parts that the reference parser tells apart.
#[derive(Debug, Clone)]
pub struct ImageParts {
    pub registry: String,
    pub namespace: Option<String>,
    pub repository: Option<String>,
    pub name: String,
    pub tag: Option<String>,
    pub digest: Option<String>,
}

/// The mathematical value of an optional text.
pub open spec fn optional_text(text: Option<String>) -> Option<Seq<char>> {
    match text {
        Some(text) => Some(text@),
        None => None,
    }
}

impl View for ImageParts {
    type V = ImagePartsView;

    open spec fn view(&self) -> ImagePartsView {
        ImagePartsView {
            registry: self.registry@,
            namespace: optional_text(self.namespace),
            repository: optional_text(self.repository),
            name: self.name@,
            tag: optional_text(self.tag),
            digest: optional_text(self.digest),
        }
    }
}

/// What `docker_registry_client::Image::from_str` makes of `text`: the parts of
/// the reference, or `None` where it rejects the text.
pub uninterp spec fn parsed_image(text: Seq<char>) -> Option<ImagePartsView>;

/// Parses a reference with `docker_registry_client::Image::from_str` and copies
/// out the registry's domain, the namespace, the repository, the name, and the
/// tag or the digest as the parser prints them.
#[verifier::external_body]
fn parse_image(text: &str) -> (r: Option<ImageParts>)
    ensures
        r matches Some(parts) ==> parsed_image(text@) == Some(parts@),
        r is None ==> parsed_image(text@) is None,
{
    let image = text.parse::<Image>().ok()?;
    Some(ImageParts {
        registry: image.registry.registry_domain().to_string(),
        namespace: image.namespace,
        repository: image.repository,
        name: image.image_name.name,
        tag: image.image_name.identifier.as_ref().left().map(Tag::to_string),
        digest: image.image_name.identifier.as_ref().right().map(Digest::to_string),
    })
}

/// Whether `c` is white space: a character with the Unicode property
/// `White_Space`.
pub open spec fn is_white_space(c: char) -> bool {
    let code = c as u32;
    ||| 0x09 <= code <= 0x0d
    ||| code == 0x20
    ||| code == 0x85
    ||| code == 0xa0
    ||| code == 0x1680
    ||| 0x2000 <= code <= 0x200a
    ||| code == 0x2028
    ||| code == 0x2029
    ||| code == 0x202f
    ||| code == 0x205f
    ||| code == 0x3000
}

/// `char::is_whitespace` tells whether a character has the Unicode property
/// `White_Space`, which holds exactly the code points of `is_white_space`.
pub assume_specification[ char::is_whitespace ](c: char) -> (r: bool)
    ensures
        r == is_white_space(c),
;

/// How many characters at the start of `text` are white space.
pub open spec fn leading_space(text: Seq<char>) -> nat
    decreases text.len(),
{
    if text.len() > 0 && is_white_space(text[0]) {
        1 + leading_space(text.drop_first())
    } else {
        0
    }
}

/// How many characters at the end of `text` are white space.
pub open spec fn trailing_space(text: Seq<char>) -> nat
    decreases text.len(),
{
    if text.len() > 0 && is_white_space(text.last()) {
        1 + trailing_space(text.drop_last())
    } else {
        0
    }
}

/// `text` without the white space at its start and at its end.
pub open spec fn trimmed(text: Seq<char>) -> Seq<char> {
    let start = leading_space(text) as int;
    let rest = text.skip(start);
    rest.take(rest.len() - trailing_space(rest))
}

proof fn lemma_leading_space_bound(text: Seq<char>)
    ensures
        leading_space(text) <= text.len(),
    decreases text.len(),
{
    if text.len() > 0 && is_white_space(text[0]) {
        lemma_leading_space_bound(text.drop_first());
    }
}

proof fn lemma_trailing_space_bound(text: Seq<char>)
    ensures
        trailing_space(text) <= text.len(),
    decreases text.len(),
{
    if text.len() > 0 && is_white_space(text.last()) {
        lemma_trailing_space_bound(text.drop_last());
    }
}

/// Removes the white space at the start and at the end of `text`.
pub fn trim(text: &str) -> (r: String)
    ensures
        r@ == trimmed(text@),
{
    let chars = chars_of(text);
    let mut start: usize = 0;
    proof {
        assert(chars@.skip(0) =~= chars@);
    }
    while start < chars.len() && chars[start].is_whitespace()
        invariant
            start <= chars.len(),
            leading_space(chars@) == start + leading_space(chars@.skip(start as int)),
        decreases chars.len() - start,
    {
        proof {
            assert(chars@.skip(start as int).drop_first() =~= chars@.skip(start + 1));
        }
        start += 1;
    }
    let ghost rest = chars@.skip(start as int);
    let mut end: usize = chars.len();
    proof {
        assert(leading_space(rest) == 0);
        assert(rest.take(rest.len() as int) =~= rest);
    }
    while end > start && chars[end - 1].is_whitespace()
        invariant
            start <= end <= chars.len(),
            rest == chars@.skip(start as int),
            trailing_space(rest) == (chars.len() - end) + trailing_space(rest.take(end - start)),
        decreases end,
    {
        proof {
            let shown = rest.take(end - start);
            assert(shown.last() == chars@[end - 1]);
            assert(shown.drop_last() =~= rest.take(end - 1 - start));
        }
        end -= 1;
    }
    proof {
        let shown = rest.take(end - start);
        if end > start {
            assert(shown.last() == chars@[end - 1]);
        }
        assert(trailing_space(shown) == 0);
    }
    let mut kept: Vec<char> = Vec::new();
    let mut i: usize = start;
    while i < end
        invariant
            start <= i <= end <= chars.len(),
            kept@ == chars@.subrange(start as int, i as int),
        decreases end - i,
    {
        kept.push(chars[i]);
        proof {
            assert(chars@.subrange(start as int, i + 1) =~= chars@.subrange(
                start as int,
                i as int,
            ).push(chars@[i as int]));
        }
        i += 1;
    }
    proof {
        assert(chars@.subrange(start as int, end as int) =~= rest.take(end - start));
    }
    string_of(&kept)
}

/// The repository path that a namespace and a repository make.
pub open spec fn joined_path(namespace: Option<Seq<char>>, repository: Option<Seq<char>>) -> Option<
    Seq<char>,
> {
    match (namespace, repository) {
        (Some(namespace), Some(repository)) => Some(namespace + seq!['/'] + repository),
        (Some(namespace), None) => Some(namespace),
        (None, Some(repository)) => Some(repository),
        (None, None) => None,
    }
}

/// The reference that parsed parts stand for. A digest takes precedence over a
/// tag, and a reference with neither addresses the tag `latest`.
pub open spec fn reference_of_parts(parts: ImagePartsView) -> ImageView {
    ImageView {
        registry: parts.registry,
        repository: joined_path(parts.namespace, parts.repository),
        image_name: parts.name,
        identifier: match parts.digest {
            Some(digest) => IdentifierView::Digest(digest),
            None => match parts.tag {
                Some(tag) => IdentifierView::Tag(tag),
                None => IdentifierView::Tag(seq!['l', 'a', 't', 'e', 's', 't']),
            },
        },
    }
}

/// The path of the image: registry and repository path and name, joined by
/// slashes, without tag or digest.
pub open spec fn image_path(image: ImageView) -> Seq<char> {
    image.registry + seq!['/'] + match image.repository {
        Some(repository) => repository + seq!['/'],
        None => Seq::empty(),
    } + image.image_name
}

/// The canonical text of a reference: its path, then `:` and the tag, or `@`
/// and the digest.
pub open spec fn canonical(image: ImageView) -> Seq<char> {
    image_path(image) + match image.identifier {
        IdentifierView::Tag(tag) => seq![':'] + tag,
        IdentifierView::Digest(digest) => seq!['@'] + digest,
    }
}

impl ImageReference {
    /// Builds the reference that parsed parts stand for.
    pub fn from_parts(parts: ImageParts) -> (image: ImageReference)
        ensures
            image@ == reference_of_parts(parts@),
    {
        let repository = match (parts.namespace, parts.repository) {
            (Some(namespace), Some(repository)) => {
                let ghost first = namespace@;
                let mut path = namespace;
                path.push('/');
                path.append(repository.as_str());
                proof {
                    assert(path@ =~= first + seq!['/'] + repository@);
                }
                Some(path)
            },
            (Some(namespace), None) => Some(namespace),
            (None, Some(repository)) => Some(repository),
            (None, None) => None,
        };
        let identifier = match parts.digest {
            Some(digest) => Identifier::Digest(digest),
            None => match parts.tag {
                Some(tag) => Identifier::Tag(tag),
                None => {
                    let mut tag = String::new();
                    tag.push('l');
                    tag.push('a');
                    tag.push('t');
                    tag.push('e');
                    tag.push('s');
                    tag.push('t');
                    proof {
                        assert(tag@ =~= seq!['l', 'a', 't', 'e', 's', 't']);
                    }
                    Identifier::Tag(tag)
                },
            },
        };
        ImageReference { registry: parts.registry, repository, image_name: parts.name, identifier }
    }

    /// Parses a reference as typed by a user: white space around it is dropped,
    /// and what is left is read as `registry/repository/name:tag` with the
    /// defaults of the reference parser.
    pub fn parse(text: &str) -> (r: Option<ImageReference>)
        ensures
            match r {
                Some(image) => parsed_image(trimmed(text@)) is Some && image@ == reference_of_parts(
                    parsed_image(trimmed(text@))->Some_0,
                ),
                None => parsed_image(trimmed(text@)) is None,
            },
    {
        let cleaned = trim(text);
        match parse_image(cleaned.as_str()) {
            Some(parts) => Some(ImageReference::from_parts(parts)),
            None => None,
        }
    }

    /// The path of the image, without tag or digest.
    pub fn path(&self) -> (path: String)
        ensures
            path@ == image_path(self@),
    {
        let mut path = self.registry.clone();
        path.push('/');
        match &self.repository {
            Some(repository) => {
                path.append(repository.as_str());
                path.push('/');
            },
            None => {},
        }
        path.append(self.image_name.as_str());
        proof {
            assert(path@ =~= image_path(self@));
        }
        path
    }

    /// The canonical text of the reference.
    pub fn canonical(&self) -> (text: String)
        ensures
            text@ == canonical(self@),
    {
        let mut text = self.path();
        match &self.identifier {
            Identifier::Tag(tag) => {
                text.push(':');
                text.append(tag.as_str());
            },
            Identifier::Digest(digest) => {
                text.push('@');
                text.append(digest.as_str());
            },
        }
        proof {
            assert(text@ =~= canonical(self@));
        }
        text
    }
}

} // verus!
