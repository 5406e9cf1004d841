//! Content fingerprints: the SHA-256 digest of a file's bytes, written as
//! lower-case hexadecimal text.

use sha2::Digest;
use vstd::prelude::*;

verus! {

/// The SHA-256 digest of a byte string.
pub uninterp spec fn sha256(data: Seq<u8>) -> Seq<u8>;

/// Calls `sha2::Sha256::digest` (the `Digest` trait's one-shot function) and
/// copies its output into a `Vec`. Trusted: the bytes returned are the digest
/// of `data`, and a SHA-256 digest is 32 bytes long.
#[verifier::external_body]
fn sha256_digest(data: &[u8]) -> (digest: Vec<u8>)
    ensures
        digest@ == sha256(data@),
        digest@.len() == 32,
{
    sha2::Sha256::digest(data).to_vec()
}

/// The lower-case hexadecimal digit for a value below 16.
pub open spec fn hex_digit(n: int) -> char {
    if n == 0 {
        '0'
    } else if n == 1 {
        '1'
    } else if n == 2 {
        '2'
    } else if n == 3 {
        '3'
    } else if n == 4 {
        '4'
    } else if n == 5 {
        '5'
    } else if n == 6 {
        '6'
    } else if n == 7 {
        '7'
    } else if n == 8 {
        '8'
    } else if n == 9 {
        '9'
    } else if n == 10 {
        'a'
    } else if n == 11 {
        'b'
    } else if n == 12 {
        'c'
    } else if n == 13 {
        'd'
    } else if n == 14 {
        'e'
    } else {
        'f'
    }
}

/// Two hexadecimal digits per byte, the high half first.
pub open spec fn hex_lower(bytes: Seq<u8>) -> Seq<char> {
    Seq::new(
        2 * bytes.len(),
        |i: int|
            if i % 2 == 0 {
                hex_digit(bytes[i / 2] as int / 16)
            } else {
                hex_digit(bytes[i / 2] as int % 16)
            },
    )
}

/// The fingerprint of a file's content.
pub open spec fn fingerprint_of(content: Seq<u8>) -> Seq<char> {
    hex_lower(sha256(content))
}

fn hex_digit_text(n: u8) -> (text: &'static str)
    requires
        n < 16,
    ensures
        text@ == seq![hex_digit(n as int)],
{
    proof {
        reveal_strlit("0");
        reveal_strlit("1");
        reveal_strlit("2");
        reveal_strlit("3");
        reveal_strlit("4");
        reveal_strlit("5");
        reveal_strlit("6");
        reveal_strlit("7");
        reveal_strlit("8");
        reveal_strlit("9");
        reveal_strlit("a");
        reveal_strlit("b");
        reveal_strlit("c");
        reveal_strlit("d");
        reveal_strlit("e");
        reveal_strlit("f");
    }
    let text: &'static str = match n {
        0 => "0",
        1 => "1",
        2 => "2",
        3 => "3",
        4 => "4",
        5 => "5",
        6 => "6",
        7 => "7",
        8 => "8",
        9 => "9",
        10 => "a",
        11 => "b",
        12 => "c",
        13 => "d",
        14 => "e",
        _ => "f",
    };
    assert(text@ =~= seq![hex_digit(n as int)]);
    text
}

/// Writes `bytes` as lower-case hexadecimal text.
pub fn to_hex_lower(bytes: &[u8]) -> (text: String)
    ensures
        text@ == hex_lower(bytes@),
{
    let mut text = String::new();
    let mut i: usize = 0;
    while i < bytes.len()
        invariant
            i <= bytes@.len(),
            text@ == hex_lower(bytes@.take(i as int)),
        decreases bytes@.len() - i,
    {
        let byte: u8 = bytes[i];
        text.append(hex_digit_text(byte / 16));
        text.append(hex_digit_text(byte % 16));
        assert(text@ =~= hex_lower(bytes@.take(i + 1)));
        i += 1;
    }
    assert(bytes@.take(i as int) =~= bytes@);
    text
}

/// The fingerprint of `content`: its SHA-256 digest in lower-case hexadecimal,
/// 64 characters long.
pub fn fingerprint(content: &[u8]) -> (text: String)
    ensures
        text@ == fingerprint_of(content@),
        text@.len() == 64,
{
    let digest = sha256_digest(content);
    to_hex_lower(digest.as_slice())
}

/// Whether a path ends in `.json`.
pub open spec fn has_json_suffix(path: Seq<char>) -> bool {
    path.len() >= 5 && path.subrange(path.len() - 5, path.len() as int) == seq![
        '.',
        'j',
        's',
        'o',
        'n',
    ]
}

/// Decides whether `path` ends in `.json`.
pub fn has_json_extension(path: &str) -> (found: bool)
    ensures
        found == has_json_suffix(path@),
{
    let n: usize = path.unicode_len();
    if n < 5 {
        return false;
    }
    let found = path.get_char(n - 5) == '.' && path.get_char(n - 4) == 'j' && path.get_char(n - 3)
        == 's' && path.get_char(n - 2) == 'o' && path.get_char(n - 1) == 'n';
    proof {
        let tail = path@.subrange(n - 5, n as int);
        let json = seq!['.', 'j', 's', 'o', 'n'];
        if found {
            assert(tail =~= json);
        } else {
            assert(tail[0] == path@[n - 5]);
            assert(tail[1] == path@[n - 4]);
            assert(tail[2] == path@[n - 3]);
            assert(tail[3] == path@[n - 2]);
            assert(tail[4] == path@[n - 1]);
            assert(json[0] == '.' && json[1] == 'j' && json[2] == 's' && json[3] == 'o' && json[4]
                == 'n');
        }
    }
    found
}

/// What was found at a watched path when it was last looked at.
#[derive(Clone, Debug, PartialEq, Eq)]
pub enum FileState {
    /// Nothing is there, or what is there is not a regular file.
    Missing,
    /// A regular file that could not be opened or read, with the reason.
    Unreadable(String),
    /// A regular file and all of its bytes.
    Content(Vec<u8>),
}

/// Why a file has no fingerprint.
#[derive(Clone, Debug, PartialEq, Eq)]
pub enum FingerprintError {
    /// The path is the empty string.
    EmptyPath,
    /// No regular file is at the path.
    NotFound(String),
    /// The path does not end in `.json`.
    InvalidExtension(String),
    /// The file could not be opened or read; holds the reason.
    Unreadable(String),
}

impl FingerprintError {
    /// The text of the error as it is logged.
    pub open spec fn message(self) -> Seq<char> {
        match self {
            FingerprintError::EmptyPath => "empty path"@,
            FingerprintError::NotFound(path) => "File not found: "@ + path@,
            FingerprintError::InvalidExtension(path) => "Invalid file extension: "@ + path@,
            FingerprintError::Unreadable(reason) => "Failed to read file: "@ + reason@,
        }
    }

    /// Renders the error for a log line.
    pub fn describe(&self) -> (text: String)
        ensures
            text@ == self.message(),
    {
        match self {
            FingerprintError::EmptyPath => String::from_str("empty path"),
            FingerprintError::NotFound(path) => String::from_str("File not found: ").concat(
                path.as_str(),
            ),
            FingerprintError::InvalidExtension(path) => String::from_str(
                "Invalid file extension: ",
            ).concat(path.as_str()),
            FingerprintError::Unreadable(reason) => String::from_str(
                "Failed to read file: ",
            ).concat(reason.as_str()),
        }
    }
}

/// The fingerprint of the file at `path`, where it has one: the path is not
/// empty and ends in `.json`, and the file was read.
pub open spec fn hash_of(path: Seq<char>, file: FileState) -> Option<Seq<char>> {
    if path.len() > 0 && has_json_suffix(path) && file is Content {
        Some(fingerprint_of(file->Content_0@))
    } else {
        None
    }
}

/// Whether `error` is the reason why the file at `path` has no fingerprint.
/// The checks come in this order: an empty path, a missing file, a path that
/// does not end in `.json`, a file that cannot be read.
pub open spec fn explains(error: FingerprintError, path: Seq<char>, file: FileState) -> bool {
    match error {
        FingerprintError::EmptyPath => path.len() == 0,
        FingerprintError::NotFound(at) => path.len() > 0 && file is Missing && at@ == path,
        FingerprintError::InvalidExtension(at) => path.len() > 0 && !(file is Missing)
            && !has_json_suffix(path) && at@ == path,
        FingerprintError::Unreadable(reason) => path.len() > 0 && has_json_suffix(path) && file
            is Unreadable && reason@ == file->Unreadable_0@,
    }
}

/// The fingerprint of the file at `path`, or the reason why it has none.
pub fn calculate_hash_file(path: &str, file: &FileState) -> (hash: Result<String, FingerprintError>)
    ensures
        match hash {
            Ok(text) => hash_of(path@, *file) == Some(text@) && text@.len() == 64,
            Err(error) => hash_of(path@, *file) is None && explains(error, path@, *file),
        },
{
    if path.is_empty() {
        return Err(FingerprintError::EmptyPath);
    }
    match file {
        FileState::Missing => Err(FingerprintError::NotFound(String::from_str(path))),
        FileState::Unreadable(why) => {
            if has_json_extension(path) {
                Err(FingerprintError::Unreadable(why.clone()))
            } else {
                Err(FingerprintError::InvalidExtension(String::from_str(path)))
            }
        },
        FileState::Content(bytes) => {
            if has_json_extension(path) {
                Ok(fingerprint(bytes.as_slice()))
            } else {
                Err(FingerprintError::InvalidExtension(String::from_str(path)))
            }
        },
    }
}

} // verus!
