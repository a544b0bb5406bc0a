//! The archive probe: the external capability that tries one candidate
//! password against the target entry of an in-memory archive and validates
//! the decrypted content by draining it.

use vstd::prelude::*;

verus! {

/// Outcome of probing the target entry with one candidate password.
#[derive(Clone, Copy, Debug, PartialEq, Eq, Structural)]
pub enum Verdict {
    /// The archive library failed in a way unrelated to password correctness.
    Fault,
    /// The candidate does not decrypt the entry.
    WrongPassword,
    /// The candidate decrypts the entry, but the content fails its integrity
    /// check while draining: a collision, not a genuine password.
    Corrupt,
    /// The candidate decrypts the entry and the content drains without error.
    Verified,
}

/// An error the search surfaces to its caller instead of aborting the process.
#[derive(Clone, Copy, Debug, PartialEq, Eq, Structural)]
pub enum SearchError {
    /// The archive bytes could not be read as an archive at all.
    ArchiveUnreadable,
    /// The archive library failed on a candidate in a way unrelated to
    /// password correctness.
    ProbeFault,
}

#[verifier::external_type_specification]
#[verifier::external_body]
#[verifier::reject_recursive_types(R)]
pub struct ExZipArchive<R>(zip::ZipArchive<R>);

#[verifier::external_type_specification]
#[verifier::external_body]
#[verifier::reject_recursive_types(T)]
pub struct ExCursor<T>(std::io::Cursor<T>);

/// Whether `bytes` parse as a readable archive: what `zip::ZipArchive::new`
/// accepts, a function of the bytes alone.
pub uninterp spec fn archive_readable(bytes: Seq<u8>) -> bool;

/// The verdict that probing the first entry of the archive `bytes` with the
/// password `pw` produces: a function of the archive bytes and the password
/// alone.
pub uninterp spec fn probe_verdict(bytes: Seq<u8>, pw: Seq<char>) -> Verdict;

/// One worker's private decode capability: an archive held in memory, probed
/// one candidate password at a time, always at its first entry.
pub struct ArchiveProbe {
    archive: zip::ZipArchive<std::io::Cursor<Vec<u8>>>,
    model: Ghost<Seq<u8>>,
}

impl ArchiveProbe {
    /// The archive bytes this probe decodes.
    pub closed spec fn data(self) -> Seq<u8> {
        self.model@
    }

    /// Relies on `zip::ZipArchive::new`: whether in-memory bytes parse as an
    /// archive depends on those bytes alone.
    #[verifier::external_body]
    fn new_archive(bytes: &Vec<u8>) -> (r: Result<
        zip::ZipArchive<std::io::Cursor<Vec<u8>>>,
        SearchError,
    >)
        ensures
            r is Ok <==> archive_readable(bytes@),
            r matches Err(e) ==> e == SearchError::ArchiveUnreadable,
    {
        match zip::ZipArchive::new(std::io::Cursor::new(bytes.clone())) {
            Ok(archive) => Ok(archive),
            Err(_) => Err(SearchError::ArchiveUnreadable),
        }
    }

    /// Relies on `zip::ZipArchive::by_index_decrypt` at entry index 0, and on
    /// draining the returned entry with `std::io::Read::read_to_end`: for an
    /// archive held in memory the combined outcome is a function of the
    /// archive bytes and the password alone. The archive was built by `open`
    /// from exactly the bytes that `data()` records. The library reports a
    /// password failure as `ZipError::InvalidPassword`; draining reports
    /// content whose integrity check fails as an error; any other library
    /// error is a fault.
    #[verifier::external_body]
    fn probe_entry(&mut self, pw: &str) -> (v: Verdict)
        ensures
            final(self).data() == old(self).data(),
            v == probe_verdict(old(self).data(), pw@),
    {
        match self.archive.by_index_decrypt(0, pw.as_bytes()) {
            Err(zip::result::ZipError::InvalidPassword) => Verdict::WrongPassword,
            Err(_) => Verdict::Fault,
            Ok(mut entry) => {
                let mut sink: Vec<u8> = Vec::new();
                match std::io::Read::read_to_end(&mut entry, &mut sink) {
                    Ok(_) => Verdict::Verified,
                    Err(_) => Verdict::Corrupt,
                }
            }
        }
    }

    /// Builds a probe over archive bytes held in memory, rejecting bytes that
    /// do not parse as an archive.
    pub fn open(bytes: &Vec<u8>) -> (r: Result<ArchiveProbe, SearchError>)
        ensures
            r is Ok <==> archive_readable(bytes@),
            r matches Ok(p) ==> p.data() == bytes@,
            r matches Err(e) ==> e == SearchError::ArchiveUnreadable,
    {
        match ArchiveProbe::new_archive(bytes) {
            Ok(archive) => Ok(ArchiveProbe { archive, model: Ghost(bytes@) }),
            Err(e) => Err(e),
        }
    }

    /// Tries one candidate password against the first entry of the archive.
    pub fn probe(&mut self, pw: &str) -> (v: Verdict)
        ensures
            final(self).data() == old(self).data(),
            v == probe_verdict(old(self).data(), pw@),
    {
        self.probe_entry(pw)
    }
}

} // verus!
