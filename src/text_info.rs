//! Reading the generator's reply: a name and a description separated by the
//! three-character delimiter `%%%`.
use vstd::prelude::*;

verus! {

/// The delimiter `%%%` starts at position `i` of `s`.
pub open spec fn delim_at(s: Seq<char>, i: int) -> bool {
    0 <= i && i + 3 <= s.len() && s[i] == '%' && s[i + 1] == '%' && s[i + 2] == '%'
}

/// No delimiter starts at a position in `[lo, hi)`.
pub open spec fn no_delim_in(s: Seq<char>, lo: int, hi: int) -> bool {
    forall|j: int| lo <= j < hi ==> !#[trigger] delim_at(s, j)
}

/// Splitting `s` on the delimiter gives exactly two parts, and the first
/// delimiter starts at `i`.
pub open spec fn single_split_at(s: Seq<char>, i: int) -> bool {
    delim_at(s, i) && no_delim_in(s, 0, i) && no_delim_in(s, i + 3, s.len() as int)
}

/// The name and description a reply holds, if splitting it on the delimiter
/// gives exactly two parts.
pub open spec fn parse_text(s: Seq<char>) -> Option<(Seq<char>, Seq<char>)> {
    if exists|i: int| single_split_at(s, i) {
        let i = choose|i: int| single_split_at(s, i);
        Some((s.subrange(0, i), s.subrange(i + 3, s.len() as int)))
    } else {
        None
    }
}

/// The split point of a reply is unique.
pub proof fn lemma_split_point_unique(s: Seq<char>, i: int, j: int)
    requires
        single_split_at(s, i),
        single_split_at(s, j),
    ensures
        i == j,
{
    if i < j {
        assert(!delim_at(s, i));
    } else if j < i {
        assert(!delim_at(s, j));
    }
}

/// A name and a description without `%` in them come back unchanged from
/// the reply that joins them with the delimiter.
pub proof fn lemma_parse_joined(name: Seq<char>, description: Seq<char>)
    requires
        forall|k: int| 0 <= k < name.len() ==> name[k] != '%',
        forall|k: int| 0 <= k < description.len() ==> description[k] != '%',
    ensures
        parse_text(name + seq!['%', '%', '%'] + description) == Some((name, description)),
{
    let s = name + seq!['%', '%', '%'] + description;
    let i = name.len() as int;
    assert(delim_at(s, i));
    assert forall|j: int| 0 <= j < i implies !#[trigger] delim_at(s, j) by {
        assert(s[j] == name[j]);
    }
    assert forall|j: int| i + 3 <= j < s.len() implies !#[trigger] delim_at(s, j) by {
        assert(s[j] == description[j - i - 3]);
    }
    assert(single_split_at(s, i));
    let c = choose|c: int| single_split_at(s, c);
    lemma_split_point_unique(s, i, c);
    assert(s.subrange(0, i) =~= name);
    assert(s.subrange(i + 3, s.len() as int) =~= description);
}

/// Why a generator reply could not be read.
#[derive(Clone, Copy, Debug, PartialEq, Eq, Structural)]
pub enum TextInfoError {
    /// The reply held no text block.
    EmptyReply,
    /// Splitting the text on the delimiter did not give exactly two parts.
    Malformed,
}

fn delim_at_exec(s: &str, n: usize, i: usize) -> (r: bool)
    requires
        n == s@.len(),
    ensures
        r == delim_at(s@, i as int),
{
    if n < 3 || i > n - 3 {
        return false;
    }
    s.get_char(i) == '%' && s.get_char(i + 1) == '%' && s.get_char(i + 2) == '%'
}

fn find_delim(s: &str, n: usize, from: usize) -> (r: Option<usize>)
    requires
        n == s@.len(),
    ensures
        match r {
            Some(i) => from <= i && delim_at(s@, i as int) && no_delim_in(s@, from as int, i as int),
            None => no_delim_in(s@, from as int, n as int),
        },
{
    let mut i: usize = from;
    while i < n
        invariant
            n == s@.len(),
            from <= i || n <= i,
            no_delim_in(s@, from as int, i as int),
        decreases n - i,
    {
        if delim_at_exec(s, n, i) {
            return Some(i);
        }
        i = i + 1;
    }
    assert forall|j: int| from <= j < n implies !#[trigger] delim_at(s@, j) by {
        if j >= i {
            assert(!delim_at(s@, j));
        }
    }
    None
}

/// Splits a reply into name and description. The reply must hold the
/// delimiter exactly once (as `str::split` counts it, from the left and
/// without overlap); otherwise it is malformed.
pub fn parse_text_info(text: &str) -> (r: Result<(String, String), TextInfoError>)
    ensures
        match parse_text(text@) {
            Some((name, description)) => r.is_ok() && r.unwrap().0@ == name && r.unwrap().1@
                == description,
            None => r == Err::<(String, String), TextInfoError>(TextInfoError::Malformed),
        },
{
    let n = text.unicode_len();
    match find_delim(text, n, 0) {
        None => {
            assert forall|i: int| !single_split_at(text@, i) by {
                if 0 <= i < n {
                    assert(!delim_at(text@, i));
                }
            }
            Err(TextInfoError::Malformed)
        },
        Some(i) => {
            match find_delim(text, n, i + 3) {
                Some(k) => {
                    assert forall|j: int| !single_split_at(text@, j) by {
                        if single_split_at(text@, j) {
                            if j < i {
                                assert(!delim_at(text@, j));
                            } else if i < j {
                                assert(!delim_at(text@, i as int));
                            } else {
                                assert(!delim_at(text@, k as int));
                            }
                        }
                    }
                    Err(TextInfoError::Malformed)
                },
                None => {
                    proof {
                        assert(single_split_at(text@, i as int));
                        let c = choose|c: int| single_split_at(text@, c);
                        lemma_split_point_unique(text@, i as int, c);
                    }
                    let name = text.substring_char(0, i).to_owned();
                    let description = text.substring_char(i + 3, n).to_owned();
                    Ok((name, description))
                },
            }
        },
    }
}

/// Reads name and description from the text blocks of a generator reply:
/// the first block holds them.
pub fn text_info_from_reply(blocks: &Vec<String>) -> (r: Result<(String, String), TextInfoError>)
    ensures
        blocks@.len() == 0 ==> r == Err::<(String, String), TextInfoError>(
            TextInfoError::EmptyReply,
        ),
        blocks@.len() > 0 ==> match parse_text(blocks@[0]@) {
            Some((name, description)) => r.is_ok() && r.unwrap().0@ == name && r.unwrap().1@
                == description,
            None => r == Err::<(String, String), TextInfoError>(TextInfoError::Malformed),
        },
{
    if blocks.len() == 0 {
        return Err(TextInfoError::EmptyReply);
    }
    parse_text_info(blocks[0].as_str())
}

/// What base64 encoding (standard alphabet, padded) makes of the bytes.
pub uninterp spec fn base64_of(b: Seq<u8>) -> Seq<char>;

/// Relies on thirtyfour::support::base64_encode, which encodes with the
/// standard padded base64 engine: four characters for each started group of
/// three bytes.
#[verifier::external_body]
fn base64_encode(data: &Vec<u8>) -> (r: String)
    ensures
        r@ == base64_of(data@),
        r@.len() == 4 * ((data@.len() + 2) / 3),
{
    thirtyfour::support::base64_encode(data.as_slice())
}

/// The image payload handed to the generator: the asset bytes in base64.
pub fn image_payload(asset: &Vec<u8>) -> (r: String)
    ensures
        r@ == base64_of(asset@),
        r@.len() == 4 * ((asset@.len() + 2) / 3),
{
    base64_encode(asset)
}

} // verus!
