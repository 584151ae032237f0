//! Finding the file behind each sample name.
//!
//! A sample `name` in a `directory` may be stored as `<directory>/<name>.wav`
//! or as `<directory>/<name>.mp3`. Where both are regular files the WAV file
//! is taken.

use vstd::prelude::*;
use vstd::string::*;

use crate::error::Error;

verus! {

/// The two container formats a sample may be stored in.
#[derive(Clone, Copy, Debug, PartialEq, Eq, Structural)]
pub enum Format {
    Wav,
    Mp3,
}

impl Format {
    /// The file extension of the format, without the dot.
    pub open spec fn spec_extension(self) -> Seq<char> {
        match self {
            Format::Wav => seq!['w', 'a', 'v'],
            Format::Mp3 => seq!['m', 'p', '3'],
        }
    }

    /// The file extension of the format, without the dot.
    pub fn extension(&self) -> (extension: &'static str)
        ensures
            extension@ == self.spec_extension(),
    {
        match self {
            Format::Wav => {
                proof {
                    reveal_strlit("wav");
                }
                assert("wav"@ =~= Format::Wav.spec_extension());
                "wav"
            },
            Format::Mp3 => {
                proof {
                    reveal_strlit("mp3");
                }
                assert("mp3"@ =~= Format::Mp3.spec_extension());
                "mp3"
            },
        }
    }
}

/// The path at which sample `name` is looked for in `directory` when stored
/// in `format`: `<directory>/<name>.<extension>`.
pub open spec fn candidate(directory: Seq<char>, name: Seq<char>, format: Format) -> Seq<char> {
    directory + seq!['/'] + name + seq!['.'] + format.spec_extension()
}

/// Builds the path at which sample `name` is looked for in `directory` when
/// stored in `format`.
pub fn candidate_path(directory: &str, name: &str, format: Format) -> (path: String)
    ensures
        path@ == candidate(directory@, name@, format),
{
    proof {
        reveal_strlit("/");
        reveal_strlit(".");
    }
    assert("/"@ =~= seq!['/']);
    assert("."@ =~= seq!['.']);
    let mut path = String::from_str(directory);
    path.append("/");
    path.append(name);
    path.append(".");
    path.append(format.extension());
    path
}

/// What the filesystem holds for one sample name: whether its WAV candidate
/// is a regular file, and whether its MP3 candidate is.
#[derive(Clone, Copy, Debug, PartialEq, Eq, Structural)]
pub struct Presence {
    pub wav: bool,
    pub mp3: bool,
}

impl Presence {
    /// The format in which the sample is taken: WAV where it is there, else
    /// MP3 where that is there, else none.
    pub open spec fn spec_preferred(self) -> Option<Format> {
        if self.wav {
            Some(Format::Wav)
        } else if self.mp3 {
            Some(Format::Mp3)
        } else {
            None
        }
    }

    /// The format in which the sample is taken, if it is there in any.
    pub fn preferred(&self) -> (format: Option<Format>)
        ensures
            format == self.spec_preferred(),
    {
        if self.wav {
            Some(Format::Wav)
        } else if self.mp3 {
            Some(Format::Mp3)
        } else {
            None
        }
    }
}

/// The format in which sample number `index` is taken. A sample of which
/// `presence` says nothing is in neither.
pub open spec fn format_at(presence: Seq<Presence>, index: int) -> Option<Format> {
    if 0 <= index < presence.len() {
        presence[index].spec_preferred()
    } else {
        None
    }
}

/// Whether `r` is the resolution of `names` in `directory`, given that the
/// directory was found or not and what `presence` says of each name.
///
/// - No names: `NoSamples`, whatever the filesystem holds.
/// - Else, directory not found: `DirectoryNotFound` with the directory.
/// - Else, some sample in neither format: `FileNotFound` with the directory
///   and the first such name.
/// - Else the path of each sample, in the order of the names.
pub open spec fn resolves_to(
    r: Result<Vec<String>, Error>,
    directory: Seq<char>,
    names: Seq<Seq<char>>,
    directory_found: bool,
    presence: Seq<Presence>,
) -> bool {
    match r {
        Ok(paths) => {
            &&& names.len() > 0
            &&& directory_found
            &&& paths@.len() == names.len()
            &&& forall|i: int|
                0 <= i < names.len() ==> format_at(presence, i) is Some && (#[trigger] paths@[i])@
                    == candidate(directory, names[i], format_at(presence, i).unwrap())
        },
        Err(Error::NoSamples) => names.len() == 0,
        Err(Error::DirectoryNotFound(d)) => {
            &&& names.len() > 0
            &&& !directory_found
            &&& d@ == directory
        },
        Err(Error::FileNotFound(d, n)) => {
            &&& names.len() > 0
            &&& directory_found
            &&& d@ == directory
            &&& exists|i: int|
                {
                    &&& 0 <= i < names.len()
                    &&& #[trigger] format_at(presence, i) is None
                    &&& forall|j: int| 0 <= j < i ==> #[trigger] format_at(presence, j) is Some
                    &&& n@ == names[i]
                }
        },
        Err(_) => false,
    }
}

/// Resolves `names` in `directory` against a filesystem given as values:
/// whether the directory was found, and for each name, by position, which of
/// its candidates are regular files. A name beyond the end of `presence` has
/// neither.
pub fn resolve_paths(
    directory: &str,
    names: &[&str],
    directory_found: bool,
    presence: &[Presence],
) -> (r: Result<Vec<String>, Error>)
    ensures
        resolves_to(r, directory@, names.deep_view(), directory_found, presence@),
{
    if names.len() == 0 {
        return Err(Error::NoSamples);
    }
    if !directory_found {
        return Err(Error::DirectoryNotFound(String::from_str(directory)));
    }
    let mut paths: Vec<String> = Vec::new();
    let mut index: usize = 0;
    while index < names.len()
        invariant
            directory_found,
            index <= names@.len(),
            paths@.len() == index,
            forall|i: int| 0 <= i < index ==> #[trigger] format_at(presence@, i) is Some,
            forall|i: int|
                0 <= i < index ==> (#[trigger] paths@[i])@ == candidate(
                    directory@,
                    names.deep_view()[i],
                    format_at(presence@, i).unwrap(),
                ),
        decreases names@.len() - index,
    {
        let name = names[index];
        assert(names.deep_view()[index as int] == name@);
        let format = if index < presence.len() {
            presence[index].preferred()
        } else {
            None
        };
        match format {
            Some(format) => {
                paths.push(candidate_path(directory, name, format));
            },
            None => {
                assert(format_at(presence@, index as int) is None);
                return Err(
                    Error::FileNotFound(String::from_str(directory), String::from_str(name)),
                );
            },
        }
        index += 1;
    }
    Ok(paths)
}

/// Where the directory is not found, resolution fails with
/// `DirectoryNotFound`, which carries the directory that was asked for.
pub proof fn lemma_missing_directory_is_reported(
    r: Result<Vec<String>, Error>,
    directory: Seq<char>,
    names: Seq<Seq<char>>,
    presence: Seq<Presence>,
)
    requires
        names.len() > 0,
        resolves_to(r, directory, names, false, presence),
    ensures
        r matches Err(Error::DirectoryNotFound(d)) && d@ == directory,
{
}

/// A sample whose WAV file is there resolves to the WAV file, whether or not
/// its MP3 file is there too.
pub proof fn lemma_wav_is_preferred(
    r: Result<Vec<String>, Error>,
    directory: Seq<char>,
    names: Seq<Seq<char>>,
    directory_found: bool,
    presence: Seq<Presence>,
    index: int,
)
    requires
        resolves_to(r, directory, names, directory_found, presence),
        r is Ok,
        0 <= index < names.len(),
        index < presence.len(),
        presence[index].wav,
    ensures
        r matches Ok(paths) && paths@[index]@ == candidate(directory, names[index], Format::Wav),
{
    let paths = r->Ok_0;
    assert(format_at(presence, index) == Some(Format::Wav));
    assert(paths@[index]@ == candidate(
        directory,
        names[index],
        format_at(presence, index).unwrap(),
    ));
}

/// Asks the filesystem whether `path` is a directory, by
/// `std::path::Path::is_dir`. The answer depends on what is on disk at the
/// moment of the call, so nothing is claimed of it.
#[verifier::external_body]
fn is_directory(path: &str) -> (found: bool) {
    std::path::Path::new(path).is_dir()
}

/// Asks the filesystem whether `path` is a regular file, by
/// `std::path::Path::is_file`. The answer depends on what is on disk at the
/// moment of the call, so nothing is claimed of it.
#[verifier::external_body]
fn is_regular_file(path: &str) -> (found: bool) {
    std::path::Path::new(path).is_file()
}

/// Resolves `names` in `directory` on the filesystem.
///
/// The lookups are made here, and what they return is handed to
/// `resolve_paths`, which decides. An empty list of names is refused before
/// anything is looked up, and a missing directory before any name is. Names
/// are looked up in order, the WAV candidate first and the MP3 candidate
/// only where the WAV candidate is not there, and the first name that has
/// neither ends the lookups.
pub fn get_audio_file_paths(directory: &str, names: &[&str]) -> (r: Result<Vec<String>, Error>)
    ensures
        exists|directory_found: bool, presence: Seq<Presence>|
            resolves_to(r, directory@, names.deep_view(), directory_found, presence),
        names@.len() == 0 <==> r is Err && r->Err_0 is NoSamples,
{
    let mut presence: Vec<Presence> = Vec::new();
    if names.len() == 0 {
        return resolve_paths(directory, names, false, presence.as_slice());
    }
    let directory_found = is_directory(directory);
    if directory_found {
        let mut index: usize = 0;
        let mut missing = false;
        while index < names.len() && !missing
            invariant
                index <= names@.len(),
            decreases names@.len() - index + if missing { 0int } else { 1int },
        {
            let name = names[index];
            let wav = is_regular_file(candidate_path(directory, name, Format::Wav).as_str());
            let mp3 = if wav {
                false
            } else {
                is_regular_file(candidate_path(directory, name, Format::Mp3).as_str())
            };
            presence.push(Presence { wav, mp3 });
            if wav || mp3 {
                index += 1;
            } else {
                missing = true;
            }
        }
    }
    resolve_paths(directory, names, directory_found, presence.as_slice())
}

/// The WAV candidate of every name, in the order of the names.
pub open spec fn wav_candidates(directory: Seq<char>, names: Seq<Seq<char>>) -> Seq<Seq<char>> {
    Seq::new(names.len(), |i: int| candidate(directory, names[i], Format::Wav))
}

/// Whether `found` says that the WAV file of name number `index` is there. A
/// name beyond the end of `found` counts as missing.
pub open spec fn found_at(found: Seq<bool>, index: int) -> bool {
    0 <= index < found.len() && found[index]
}

/// Whether `found` says of each of the first `count` names that its WAV file
/// is there.
pub open spec fn all_found(found: Seq<bool>, count: nat) -> bool {
    forall|i: int| 0 <= i < count ==> #[trigger] found_at(found, i)
}

/// Whether `r` is the list of WAV paths of `names` in `directory`, given
/// which of them `found` says are regular files: every path if all are
/// there, nothing if any is missing.
pub open spec fn collects_to(
    r: Option<Vec<String>>,
    directory: Seq<char>,
    names: Seq<Seq<char>>,
    found: Seq<bool>,
) -> bool {
    match r {
        Some(paths) => all_found(found, names.len()) && paths.deep_view() == wav_candidates(
            directory,
            names,
        ),
        None => !all_found(found, names.len()),
    }
}

/// Collects the WAV paths of `names` in `directory` against a filesystem
/// given as values: for each name, by position, whether its WAV file is a
/// regular file.
pub fn collect_sample_paths(directory: &str, names: &[&str], found: &[bool]) -> (r: Option<
    Vec<String>,
>)
    ensures
        collects_to(r, directory@, names.deep_view(), found@),
{
    let mut paths: Vec<String> = Vec::new();
    let mut index: usize = 0;
    while index < names.len()
        invariant
            index <= names@.len(),
            paths@.len() == index,
            all_found(found@, index as nat),
            forall|i: int|
                0 <= i < index ==> (#[trigger] paths@[i])@ == candidate(
                    directory@,
                    names.deep_view()[i],
                    Format::Wav,
                ),
        decreases names@.len() - index,
    {
        if index >= found.len() || !found[index] {
            assert(!found_at(found@, index as int));
            return None;
        }
        let name = names[index];
        assert(names.deep_view()[index as int] == name@);
        paths.push(candidate_path(directory, name, Format::Wav));
        index += 1;
    }
    assert(paths.deep_view() =~= wav_candidates(directory@, names.deep_view()));
    Some(paths)
}

/// Collects the WAV file of every name in `directory` from the filesystem,
/// or nothing if one of them is not a regular file.
///
/// The lookups are made here, and what they return is handed to
/// `collect_sample_paths`, which decides. Names are looked up in order, and
/// the first missing file ends the lookups.
pub fn get_sample_paths(directory: &str, names: &[&str]) -> (r: Option<Vec<String>>)
    ensures
        exists|found: Seq<bool>| collects_to(r, directory@, names.deep_view(), found),
        names@.len() == 0 ==> r is Some,
{
    let mut found: Vec<bool> = Vec::new();
    let mut index: usize = 0;
    let mut missing = false;
    while index < names.len() && !missing
        invariant
            index <= names@.len(),
        decreases names@.len() - index + if missing { 0int } else { 1int },
    {
        let wav = is_regular_file(candidate_path(directory, names[index], Format::Wav).as_str());
        found.push(wav);
        if wav {
            index += 1;
        } else {
            missing = true;
        }
    }
    let r = collect_sample_paths(directory, names, found.as_slice());
    proof {
        if names@.len() == 0 {
            assert(all_found(found@, 0));
        }
    }
    r
}

} // verus!
