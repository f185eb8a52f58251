//! The inbound event and what is derived from it.
use vstd::prelude::*;

verus! {

/// Bucket that holds the uploaded videos.
pub const VIDEOS_BUCKET: &'static str = "videos";

/// Bucket that receives the preview images.
pub const PREVIEWS_BUCKET: &'static str = "previews";

/// Characters in a preview key.
pub const PREVIEW_ID_LEN: usize = 21;

/// A request to generate the previews of one uploaded video.
#[derive(Debug)]
pub struct ProcessEvent {
    /// Object-store key of the source video.
    pub reference: String,
    /// Media type of the video, such as `video/mp4`.
    pub mimetype: String,
}

/// The text after the last `/` of a media type, or all of it when it has no
/// `/`.
pub open spec fn subtype_of(m: Seq<char>) -> Seq<char>
    decreases m.len(),
{
    if m.len() == 0 {
        m
    } else if m.last() == '/' {
        Seq::empty()
    } else {
        subtype_of(m.drop_last()).push(m.last())
    }
}

/// Where the video of an event is kept while it is processed.
pub open spec fn scratch_path_of(reference: Seq<char>, mimetype: Seq<char>) -> Seq<char> {
    "/tmp/"@ + reference + "."@ + subtype_of(mimetype)
}

proof fn lemma_subtype_suffix(m: Seq<char>, j: int)
    requires
        0 <= j <= m.len(),
        j == 0 || m[j - 1] == '/',
        forall|k: int| j <= k < m.len() ==> m[k] != '/',
    ensures
        subtype_of(m) == m.subrange(j, m.len() as int),
    decreases m.len(),
{
    if m.len() == j {
        if j > 0 {
            assert(m.last() == '/');
        }
        assert(m.subrange(j, j) =~= Seq::<char>::empty());
    } else {
        lemma_subtype_suffix(m.drop_last(), j);
        assert(m.drop_last().subrange(j, m.len() - 1).push(m.last()) =~= m.subrange(
            j,
            m.len() as int,
        ));
    }
}

/// The subtype of a media type: the text after its last `/`.
pub fn subtype(mimetype: &str) -> (r: &str)
    ensures
        r@ == subtype_of(mimetype@),
{
    let n = mimetype.unicode_len();
    let mut j: usize = n;
    while j > 0 && mimetype.get_char(j - 1) != '/'
        invariant
            n == mimetype@.len(),
            j <= n,
            forall|k: int| j <= k < n ==> mimetype@[k] != '/',
        decreases j,
    {
        j -= 1;
    }
    proof {
        lemma_subtype_suffix(mimetype@, j as int);
    }
    mimetype.substring_char(j, n)
}

/// The local scratch file of an event: `/tmp/<reference>.<subtype>`.
pub fn scratch_path(event: &ProcessEvent) -> (r: String)
    ensures
        r@ == scratch_path_of(event.reference@, event.mimetype@),
{
    let mut p = String::from_str("/tmp/");
    p.append(event.reference.as_str());
    p.append(".");
    p.append(subtype(event.mimetype.as_str()));
    p
}

/// Number of extraction workers: one fewer than the available parallelism,
/// and at least one. When the parallelism is unknown, two is assumed.
pub fn cpu_pool_size(available: Option<usize>) -> (r: usize)
    ensures
        r == (match available {
            Some(n) => if n >= 2 { n - 1 } else { 1 },
            None => 1,
        }),
        r >= 1,
{
    match available {
        Some(n) => if n >= 2 { n - 1 } else { 1 },
        None => 1,
    }
}

/// Whether a character belongs to the alphabet of preview keys: ASCII
/// letters, digits, `_` and `-`.
pub open spec fn is_id_char(c: char) -> bool {
    c == '_' || c == '-' || ('0' <= c && c <= '9') || ('a' <= c && c <= 'z') || ('A' <= c && c
        <= 'Z')
}

/// Relies on `nanoid::format` with `nanoid::rngs::default` and
/// `nanoid::alphabet::SAFE`: a random key of exactly the requested number of
/// characters, each taken from that alphabet.
#[verifier::external_body]
pub(crate) fn fresh_preview_id() -> (r: String)
    ensures
        r@.len() == PREVIEW_ID_LEN,
        forall|i: int| 0 <= i < r@.len() ==> is_id_char(#[trigger] r@[i]),
{
    nanoid::format(nanoid::rngs::default, &nanoid::alphabet::SAFE, PREVIEW_ID_LEN)
}

} // verus!
