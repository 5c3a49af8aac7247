//! Data exchanged with the hosted-gist remote store, as plain values.
use crate::error::Error;
use crate::text::str_equals;
use vstd::prelude::*;

verus! {

/// The hosted-gist backend of the remote store.
#[derive(Debug, Clone, Copy, PartialEq, Eq, Structural)]
pub struct GitHubGistDataSink;

/// A request for one gist.
#[derive(Debug, Clone)]
pub struct FetchGist {
    id: String,
}

impl FetchGist {
    /// A request for the gist with identifier `id`.
    pub fn new(id: &str) -> (r: FetchGist)
        ensures
            r.id()@ == id@,
    {
        FetchGist { id: id.to_owned() }
    }

    /// The identifier of the requested gist.
    pub closed spec fn id(&self) -> String {
        self.id
    }

    /// The identifier of the requested gist.
    pub fn gist_id(&self) -> (r: &str)
        ensures
            r@ == self.id()@,
    {
        self.id.as_str()
    }
}

/// What creating a gist returns.
#[derive(Debug, Clone)]
pub struct CreateGistResponse {
    pub id: String,
}

/// One file listed in a fetched gist.
#[derive(Debug, Clone)]
pub struct FetchGistResponseFile {
    pub filename: String,
    pub raw_url: String,
}

/// The files of a fetched gist.
#[derive(Debug, Clone)]
pub struct FetchGistResponse {
    pub files: Vec<FetchGistResponseFile>,
}

/// Index of the last file of `files` named `name`, or -1.
pub open spec fn file_index(files: Seq<FetchGistResponseFile>, name: Seq<char>) -> int
    decreases files.len(),
{
    if files.len() == 0 {
        -1
    } else if files.last().filename@ == name {
        files.len() - 1
    } else {
        file_index(files.drop_last(), name)
    }
}

proof fn lemma_file_index_range(files: Seq<FetchGistResponseFile>, name: Seq<char>)
    ensures
        -1 <= file_index(files, name) < files.len(),
    decreases files.len(),
{
    if files.len() > 0 {
        lemma_file_index_range(files.drop_last(), name);
    }
}

impl FetchGistResponse {
    /// The file named `name`; `MissingGistFiles` when the gist has none.
    pub fn file(&self, name: &str) -> (r: Result<&FetchGistResponseFile, Error>)
        ensures
            file_index(self.files@, name@) < 0 ==> r matches Err(Error::MissingGistFiles),
            file_index(self.files@, name@) >= 0 ==> r == Ok::<&FetchGistResponseFile, Error>(
                &self.files@[file_index(self.files@, name@)],
            ),
    {
        let mut found: Option<usize> = None;
        let mut j: usize = 0;
        while j < self.files.len()
            invariant
                j <= self.files.len(),
                match found {
                    Some(k) => k as int == file_index(self.files@.take(j as int), name@),
                    None => file_index(self.files@.take(j as int), name@) == -1,
                },
            decreases self.files.len() - j,
        {
            proof {
                let t = self.files@.take(j + 1);
                assert(t.drop_last() =~= self.files@.take(j as int));
                assert(t.last() == self.files@[j as int]);
            }
            if str_equals(self.files[j].filename.as_str(), name) {
                found = Some(j);
            }
            j = j + 1;
        }
        proof {
            assert(self.files@.take(j as int) =~= self.files@);
            lemma_file_index_range(self.files@, name@);
        }
        match found {
            Some(k) => Ok(&self.files[k]),
            None => Err(Error::MissingGistFiles),
        }
    }
}

/// Errors reported to the graphical and command-line front ends.
#[derive(Debug, Clone)]
pub enum DBusError {
    GistCreateFailure(String),
    GistUpdateFailure(String),
    GistSyncFailure(String),
    GistApplyFailure(String),
    InvalidSecret,
    AutoStartFailure,
}

/// Whether a secret handed over by the control surface may be stored:
/// an empty one is refused.
pub fn check_secret(secret: &str) -> (r: Result<(), DBusError>)
    ensures
        r is Ok <==> secret@.len() > 0,
        r is Err ==> r matches Err(DBusError::InvalidSecret),
{
    if secret.is_empty() {
        Err(DBusError::InvalidSecret)
    } else {
        Ok(())
    }
}

} // verus!
