//! Names of files that clients may ask for.
use crate::error::{bad_request, ApiError, ApiErrorView};
use crate::path::{
    file_name, join, lemma_file_name_of_text, lemma_join_name, lemma_join_parent,
    lemma_plain_file_name, meaning, parent, UnixPath, DOT,
};
use crate::text::{ends_with, text_eq};
use crate::utf8::{decode_strict, lemma_encoding_holds_ascii, lemma_encoding_is_injective};
use vstd::prelude::*;
use vstd::utf8::encode_utf8;

verus! {

/// Whether a text is the name of a file, and not a path that leads elsewhere.
pub open spec fn is_plain_name(name: Seq<char>) -> bool {
    &&& name.len() > 0
    &&& !name.contains('/')
    &&& name != seq!['.']
    &&& name != seq!['.', '.']
}

/// A name, if it is its own file name, or else why it is refused: `invalid` where it holds no
/// file name at all, `separated` where more than the file name was given.
pub open spec fn checked_name(
    name: Seq<char>,
    invalid: Seq<char>,
    separated: Seq<char>,
) -> Result<Seq<char>, ApiErrorView> {
    match file_name(encode_utf8(name)) {
        None => Err(bad_request(invalid)),
        Some(last) => if last == encode_utf8(name) {
            Ok(name)
        } else {
            Err(bad_request(separated))
        },
    }
}

/// The name of a backup, or why it is refused.
pub open spec fn backup_name(name: Seq<char>) -> Result<Seq<char>, ApiErrorView> {
    checked_name(
        name,
        "backup name is invalid"@,
        "backup name must not contain path separators"@,
    )
}

/// The name of an `.srs` file, or why it is refused.
pub open spec fn srs_name(name: Seq<char>) -> Result<Seq<char>, ApiErrorView> {
    match checked_name(
        name,
        "srs file name is invalid"@,
        "srs file name must not contain path separators"@,
    ) {
        Ok(checked) => if ".srs"@.is_suffix_of(checked) {
            Ok(checked)
        } else {
            Err(bad_request("only .srs files are allowed"@))
        },
        Err(error) => Err(error),
    }
}

/// The value of the model that a result stands for.
pub open spec fn name_result(r: Result<String, ApiError>) -> Result<Seq<char>, ApiErrorView> {
    match r {
        Ok(name) => Ok(name@),
        Err(error) => Err(error@),
    }
}

/// Accepts a name that is its own file name.
fn check_name(name: &str, invalid: &str, separated: &str) -> (r: Result<String, ApiError>)
    ensures
        name_result(r) == checked_name(name@, invalid@, separated@),
{
    let path = UnixPath::new(name);
    let last = match path.file_name() {
        Some(last) => last,
        None => {
            return Err(ApiError::bad_request(invalid.to_owned()));
        },
    };
    proof {
        lemma_file_name_of_text(name@);
    }
    let ghost bytes = last@;
    match decode_strict(last) {
        Some(parsed) => {
            proof {
                vstd::utf8::decode_utf8_encode_utf8(bytes);
                vstd::utf8::encode_utf8_decode_utf8(name@);
            }
            if !text_eq(parsed.as_str(), name) {
                return Err(ApiError::bad_request(separated.to_owned()));
            }
            Ok(parsed)
        },
        None => Err(ApiError::bad_request(invalid.to_owned())),
    }
}

/// Accepts the name of a backup.
pub fn sanitize_backup_name(name: &str) -> (r: Result<String, ApiError>)
    ensures
        name_result(r) == backup_name(name@),
{
    check_name(
        name,
        "backup name is invalid",
        "backup name must not contain path separators",
    )
}

/// Accepts the name of an `.srs` file.
pub fn sanitize_srs_name(name: &str) -> (r: Result<String, ApiError>)
    ensures
        name_result(r) == srs_name(name@),
{
    let parsed = match check_name(
        name,
        "srs file name is invalid",
        "srs file name must not contain path separators",
    ) {
        Ok(parsed) => parsed,
        Err(error) => {
            return Err(error);
        },
    };
    if !ends_with(parsed.as_str(), ".srs") {
        return Err(ApiError::bad_request("only .srs files are allowed".to_owned()));
    }
    Ok(parsed)
}

/// A plain name does not lead out of a directory: what it leads to stands in the directory itself,
/// under that name.
pub proof fn law_plain_names_stay_in_the_directory(dir: Seq<u8>, name: Seq<char>)
    requires
        is_plain_name(name),
    ensures
        file_name(join(dir, encode_utf8(name))) == Some(encode_utf8(name)),
        parent(join(dir, encode_utf8(name))) is Some,
        meaning(parent(join(dir, encode_utf8(name)))->0) == meaning(dir),
{
    lemma_plain(name);
    lemma_plain_file_name(encode_utf8(name));
    lemma_join_name(dir, encode_utf8(name));
    lemma_join_parent(dir, encode_utf8(name));
}

/// A name is accepted for a backup exactly if it is plain, and then it is kept as it is. So no
/// accepted name leads out of the directory of the backups.
pub proof fn law_backup_names_are_plain(name: Seq<char>)
    ensures
        backup_name(name) is Ok <==> is_plain_name(name),
        backup_name(name) is Ok ==> backup_name(name) == Ok::<Seq<char>, ApiErrorView>(name),
{
    lemma_plain(name);
}

/// A name is accepted for an `.srs` file exactly if it is plain and ends in `.srs`, and then it
/// is kept as it is. So no accepted name leads out of the directory of the `.srs` files.
pub proof fn law_srs_names_are_plain(name: Seq<char>)
    ensures
        srs_name(name) is Ok <==> is_plain_name(name) && ".srs"@.is_suffix_of(name),
        srs_name(name) is Ok ==> srs_name(name) == Ok::<Seq<char>, ApiErrorView>(name),
{
    lemma_plain(name);
}

/// A text is its own file name exactly if it is plain.
pub proof fn lemma_plain(name: Seq<char>)
    ensures
        file_name(encode_utf8(name)) == Some(encode_utf8(name)) <==> is_plain_name(name),
{
    let bytes = encode_utf8(name);
    lemma_encoding_holds_ascii(name, '/');
    lemma_plain_file_name(bytes);
    vstd::utf8::encode_utf8_decode_utf8(name);
    lemma_dots_encoded();
    if bytes == seq![DOT] {
        lemma_encoding_is_injective(name, seq!['.']);
    }
    if bytes == seq![DOT, DOT] {
        lemma_encoding_is_injective(name, seq!['.', '.']);
    }
    if bytes.len() == 0 {
        assert(encode_utf8(Seq::<char>::empty()) =~= bytes);
        lemma_encoding_is_injective(name, Seq::empty());
    }
    if name.len() == 0 {
        assert(bytes.len() == 0);
    }
}

/// How one and two dots are encoded.
proof fn lemma_dots_encoded()
    ensures
        encode_utf8(seq!['.']) == seq![DOT],
        encode_utf8(seq!['.', '.']) == seq![DOT, DOT],
{
    vstd::utf8::is_ascii_chars_encode_utf8(seq!['.']);
    vstd::utf8::is_ascii_chars_encode_utf8(seq!['.', '.']);
    let one = encode_utf8(seq!['.']);
    let two = encode_utf8(seq!['.', '.']);
    assert(seq!['.'][0] == '.');
    assert(seq!['.', '.'][0] == '.');
    assert(seq!['.', '.'][1] == '.');
    assert(one =~= seq![DOT]);
    assert(two =~= seq![DOT, DOT]);
}

/// A refused name is an error of the request, and the report says what is wrong with it: that it
/// holds no file name, that it holds more than one, or, for an `.srs` file, that it has another
/// ending.
pub proof fn law_refused_names_are_explained(name: Seq<char>)
    ensures
        backup_name(name) matches Err(error) ==> {
            &&& error.status == 400
            &&& file_name(encode_utf8(name)) is None ==> error.message == "backup name is invalid"@
            &&& file_name(encode_utf8(name)) is Some ==> error.message
                == "backup name must not contain path separators"@
        },
        srs_name(name) matches Err(error) ==> {
            &&& error.status == 400
            &&& is_plain_name(name) ==> error.message == "only .srs files are allowed"@
            &&& !is_plain_name(name) && file_name(encode_utf8(name)) is None ==> error.message
                == "srs file name is invalid"@
            &&& !is_plain_name(name) && file_name(encode_utf8(name)) is Some ==> error.message
                == "srs file name must not contain path separators"@
        },
{
    lemma_plain(name);
}

} // verus!
