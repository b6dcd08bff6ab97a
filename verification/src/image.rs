//! Images: how one is named, and what its configuration holds.
use vstd::prelude::*;
use vstd::string::*;

use crate::error::{opt_text, seen, RunError, RunErrorView};
use crate::text::{same_text, text_behind};
use crate::text::{lemma_split_at, split_once};

verus! {

// ---------------------------------------------------------------------------------------
// Naming

/// How an image is named: by the digest of its manifest, or by a name in the repository.
#[derive(Debug)]
pub enum ImageReference {
    Digest(String),
    Name(String),
}

/// The model of an [`ImageReference`].
pub enum ImageReferenceView {
    Digest(Seq<char>),
    Name(Seq<char>),
}

impl View for ImageReference {
    type V = ImageReferenceView;

    open spec fn view(&self) -> ImageReferenceView {
        match *self {
            ImageReference::Digest(s) => ImageReferenceView::Digest(s@),
            ImageReference::Name(s) => ImageReferenceView::Name(s@),
        }
    }
}

/// A character of a component of the name of a digest algorithm.
pub open spec fn is_component_char(c: char) -> bool {
    ('a' <= c && c <= 'z') || ('0' <= c && c <= '9')
}

/// A character between two components.
pub open spec fn is_separator(c: char) -> bool {
    c == '+' || c == '.' || c == '_' || c == '-'
}

/// A character of an encoded digest.
pub open spec fn is_encoded_char(c: char) -> bool {
    is_component_char(c) || ('A' <= c && c <= 'Z') || c == '=' || c == '_' || c == '-'
}

pub open spec fn is_hex_char(c: char) -> bool {
    ('0' <= c && c <= '9') || ('a' <= c && c <= 'f')
}

/// Components with one separator between each two.
pub open spec fn is_algorithm(s: Seq<char>) -> bool {
    &&& s.len() > 0
    &&& forall|i: int| 0 <= i < s.len() ==> is_component_char(#[trigger] s[i]) || is_separator(s[i])
    &&& !is_separator(s[0]) && !is_separator(s.last())
    &&& forall|i: int, j: int|
        0 <= i < s.len() && j == i + 1 && j < s.len() && is_separator(#[trigger] s[i])
            ==> !is_separator(#[trigger] s[j])
}

/// The length in hexadecimal of the digests of an algorithm, where it is a known one.
pub open spec fn hex_length(algorithm: Seq<char>) -> Option<nat> {
    if algorithm == "sha256"@ {
        Some(64)
    } else if algorithm == "sha384"@ {
        Some(96)
    } else if algorithm == "sha512"@ {
        Some(128)
    } else {
        None
    }
}

/// `ALGORITHM:ENCODED`, where the digest of a known algorithm is in lower case hexadecimal and
/// has its length.
pub open spec fn is_digest(s: Seq<char>) -> bool {
    match split_once(s, ':') {
        None => false,
        Some((algorithm, encoded)) => {
            &&& is_algorithm(algorithm)
            &&& encoded.len() > 0
            &&& forall|i: int| 0 <= i < encoded.len() ==> is_encoded_char(#[trigger] encoded[i])
            &&& hex_length(algorithm) matches Some(n) ==> {
                &&& encoded.len() == n
                &&& forall|i: int| 0 <= i < encoded.len() ==> is_hex_char(#[trigger] encoded[i])
            }
        },
    }
}

/// Whether `composefs_oci`'s `OciDigest::from_str`, which is `oci_spec`'s `Digest::from_str`,
/// accepts a text.
///
/// The clause says that it accepts the texts that [`is_digest`] describes, and no others.
#[verifier::external_body]
fn oci_accepts_digest(s: &str) -> (r: bool)
    ensures
        r == is_digest(s@),
{
    s.parse::<composefs_oci::OciDigest>().is_ok()
}

/// `@DIGEST`, or a name.
pub open spec fn image_value(image: Option<Seq<char>>) -> Result<ImageReferenceView, RunErrorView> {
    match image {
        None => Err(RunErrorView::NoImage),
        Some(s) => if s.len() > 0 && s[0] == '@' {
            if is_digest(s.skip(1)) {
                Ok(ImageReferenceView::Digest(s.skip(1)))
            } else {
                Err(RunErrorView::BadDigest)
            }
        } else {
            Ok(ImageReferenceView::Name(s))
        },
    }
}

/// Reads how an image is named on the command line.
pub fn image_reference(image: &Option<String>) -> (r: Result<ImageReference, RunError>)
    ensures
        seen(r) == image_value(opt_text(*image)),
{
    match image {
        None => Err(RunError::NoImage),
        Some(s) => {
            let n: usize = s.as_str().unicode_len();
            if n > 0 && s.as_str().get_char(0) == '@' {
                let digest = text_behind(s.as_str(), 0);
                if oci_accepts_digest(digest) {
                    Ok(ImageReference::Digest(digest.to_owned()))
                } else {
                    Err(RunError::BadDigest)
                }
            } else {
                Ok(ImageReference::Name(s.clone()))
            }
        },
    }
}

// ---------------------------------------------------------------------------------------
// Configuration

/// A label of an image.
#[derive(Debug)]
pub struct Label {
    pub key: String,
    pub value: String,
}

/// What an image says about the containers that are made from it.
#[derive(Debug)]
pub struct ImageConfig {
    pub entrypoint: Option<Vec<String>>,
    pub cmd: Option<Vec<String>>,
    pub env: Option<Vec<String>>,
    pub working_dir: Option<String>,
    pub user: Option<String>,
    pub labels: Vec<Label>,
}

/// The value of the first label with a key.
pub open spec fn label_text(labels: Seq<Label>, key: Seq<char>) -> Option<Seq<char>>
    decreases labels.len(),
{
    if labels.len() == 0 {
        None
    } else if labels[0].key@ == key {
        Some(labels[0].value@)
    } else {
        label_text(labels.drop_first(), key)
    }
}

impl ImageConfig {
    /// The configuration of an image that says nothing.
    pub fn empty() -> (r: ImageConfig)
        ensures
            r.entrypoint is None && r.cmd is None && r.env is None,
            r.working_dir is None && r.user is None && r.labels@.len() == 0,
    {
        ImageConfig {
            entrypoint: None,
            cmd: None,
            env: None,
            working_dir: None,
            user: None,
            labels: Vec::new(),
        }
    }

    /// The value of the first label with a key.
    pub fn label(&self, key: &str) -> (r: Option<String>)
        ensures
            opt_text(r) == label_text(self.labels@, key@),
    {
        let mut i: usize = 0;
        assert(self.labels@.skip(0) =~= self.labels@);
        while i < self.labels.len()
            invariant
                i <= self.labels@.len(),
                label_text(self.labels@, key@) == label_text(self.labels@.skip(i as int), key@),
            decreases self.labels@.len() - i,
        {
            if same_text(self.labels[i].key.as_str(), key) {
                return Some(self.labels[i].value.clone());
            }
            assert(self.labels@.skip(i as int).drop_first() =~= self.labels@.skip(i + 1));
            i = i + 1;
        }
        None
    }
}

// ---------------------------------------------------------------------------------------
// Laws

/// Law: a text behind an `@` is a digest, as it stands, or refused; any other text is a name, as
/// it stands.
pub proof fn law_image_forms(s: Seq<char>)
    ensures
        image_value(Some(seq!['@'] + s)) == if is_digest(s) {
            Ok::<ImageReferenceView, RunErrorView>(ImageReferenceView::Digest(s))
        } else {
            Err(RunErrorView::BadDigest)
        },
        !(s.len() > 0 && s[0] == '@') ==> image_value(Some(s)) == Ok::<
            ImageReferenceView,
            RunErrorView,
        >(ImageReferenceView::Name(s)),
        image_value(None) == Err::<ImageReferenceView, RunErrorView>(RunErrorView::NoImage),
{
    assert((seq!['@'] + s).skip(1) =~= s);
}

/// Law: a SHA-256 digest is the name of the algorithm, a colon, and 64 digits in lower case
/// hexadecimal.
pub proof fn law_sha256_digests(hex: Seq<char>)
    ensures
        is_digest("sha256:"@ + hex) <==> hex.len() == 64 && (forall|i: int|
            0 <= i < hex.len() ==> ('0' <= #[trigger] hex[i] && hex[i] <= '9') || ('a' <= hex[i]
                && hex[i] <= 'f')),
{
    reveal_strlit("sha256:");
    reveal_strlit("sha256");
    reveal_strlit("sha384");
    reveal_strlit("sha512");
    let a = "sha256"@;
    assert("sha256:"@ + hex =~= a + seq![':'] + hex);
    assert(!a.contains(':'));
    lemma_split_at(a, ':', hex);
    assert(is_algorithm(a));
    assert(hex_length(a) == Some(64nat));
    if hex.len() == 64 && (forall|i: int|
        0 <= i < hex.len() ==> ('0' <= #[trigger] hex[i] && hex[i] <= '9') || ('a' <= hex[i]
            && hex[i] <= 'f')) {
        assert forall|i: int| 0 <= i < hex.len() implies is_encoded_char(#[trigger] hex[i])
            && is_hex_char(hex[i]) by {}
    }
    if is_digest("sha256:"@ + hex) {
        assert forall|i: int| 0 <= i < hex.len() implies ('0' <= #[trigger] hex[i] && hex[i]
            <= '9') || ('a' <= hex[i] && hex[i] <= 'f') by {
            assert(is_hex_char(hex[i]));
        }
    }
}

/// Law: the first label with a key gives its value, and without one there is none.
pub proof fn law_first_label_counts(labels: Seq<Label>, key: Seq<char>, i: int)
    requires
        0 <= i <= labels.len(),
        forall|j: int| 0 <= j < i ==> (#[trigger] labels[j]).key@ != key,
        i < labels.len() ==> labels[i].key@ == key,
    ensures
        label_text(labels, key) == if i < labels.len() {
            Some(labels[i].value@)
        } else {
            None
        },
    decreases labels.len(),
{
    if i > 0 {
        let rest = labels.drop_first();
        assert(labels[0].key@ != key);
        assert forall|j: int| 0 <= j < i - 1 implies (#[trigger] rest[j]).key@ != key by {
            assert(rest[j] == labels[j + 1]);
        }
        law_first_label_counts(rest, key, i - 1);
    }
}

} // verus!
