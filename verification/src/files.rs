//! The update manifest: a list of remote files, each with its expected
//! size, content hash and relative path under the installation root.
//!
//! Fetching a file and reading it back from disk are I/O and live with the
//! caller; everything that can be decided from plain values — the full
//! destination path, whether a byte content matches the recorded hash, and
//! which local files are stale — is decided here.

use vstd::prelude::*;
use vstd::string::StringExecFns;

verus! {

/// One entry of the update manifest.
pub struct File {
    pub url: String,
    pub size: u64,
    pub hash: String,
    pub path: String,
}

/// The SHA-1 digest of a byte sequence, as the `sha1` crate computes it.
pub uninterp spec fn sha1_of(bytes: Seq<u8>) -> Seq<u8>;

/// The lowercase hexadecimal rendering of a byte sequence, as `hex::encode`
/// produces it.
pub uninterp spec fn hex_of(bytes: Seq<u8>) -> Seq<char>;

/// Relies on `sha1::Sha1` through the `Digest` trait: the digest is a
/// 20-byte value determined by the input bytes alone.
#[verifier::external_body]
fn sha1_digest(bytes: &Vec<u8>) -> (r: Vec<u8>)
    ensures
        r@ == sha1_of(bytes@),
        r@.len() == 20,
{
    let mut hasher = <sha1::Sha1 as sha1::Digest>::new();
    sha1::Digest::update(&mut hasher, bytes.as_slice());
    sha1::Digest::finalize(hasher).to_vec()
}

/// Relies on `hex::encode`: two lowercase hex digits per input byte,
/// determined by the input bytes alone.
#[verifier::external_body]
fn hex_encode(bytes: &Vec<u8>) -> (r: String)
    ensures
        r@ == hex_of(bytes@),
        r@.len() == 2 * bytes@.len(),
{
    hex::encode(bytes.as_slice())
}

impl File {
    /// The hex-encoded SHA-1 digest of a candidate content for this file.
    pub fn content_hash(bytes: &Vec<u8>) -> (r: String)
        ensures
            r@ == hex_of(sha1_of(bytes@)),
            r@.len() == 40,
    {
        let digest = sha1_digest(bytes);
        hex_encode(&digest)
    }

    /// Whether an already computed digest rendering equals the recorded hash.
    pub fn matches_hash(&self, digest_hex: &String) -> (r: bool)
        ensures
            r == (digest_hex@ == self.hash@),
    {
        digest_hex.eq(&self.hash)
    }

    /// Whether `bytes` is the content this manifest entry promises.
    pub fn verify(&self, bytes: &Vec<u8>) -> (r: bool)
        ensures
            r == (hex_of(sha1_of(bytes@)) == self.hash@),
    {
        let digest_hex = Self::content_hash(bytes);
        self.matches_hash(&digest_hex)
    }

    /// The destination of this entry under `root`, with `/` as separator.
    pub fn fullpath(&self, root: &str) -> (r: String)
        ensures
            r@ == root@ + seq!['/'] + self.path@,
    {
        proof {
            reveal_strlit("/");
        }
        let mut s = String::from_str(root);
        s.append("/");
        s.append(self.path.as_str());
        s
    }
}

/// The whole update manifest.
pub struct Files {
    pub files: Vec<File>,
}

/// Whether some string in `ss` reads as `t`.
pub open spec fn contains_view(ss: Seq<String>, t: Seq<char>) -> bool {
    exists|i: int| 0 <= i < ss.len() && ss[i]@ == t
}

impl Files {
    /// The entries, for read-only traversal.
    pub fn iter(&self) -> (r: &Vec<File>)
        ensures
            r == &self.files,
    {
        &self.files
    }

    /// The entries, for in-place updates.
    pub fn iter_mut(&mut self) -> (r: &mut Vec<File>)
        ensures
            *r == old(self).files,
            final(self).files == *final(r),
    {
        &mut self.files
    }

    /// The entries, surrendering the manifest.
    pub fn into_iter(self) -> (r: Vec<File>)
        ensures
            r == self.files,
    {
        self.files
    }

    /// The local paths that the manifest no longer accounts for: exactly
    /// those members of `local`, in order, that occur nowhere in `distant`.
    /// The caller removes the files so listed.
    pub fn stale_files(distant: &Vec<String>, local: &Vec<String>) -> (r: Vec<String>)
        ensures
            r@.map_values(|s: String| s@) == local@.map_values(|s: String| s@).filter(
                |p: Seq<char>| !contains_view(distant@, p),
            ),
    {
        let ghost views = local@.map_values(|s: String| s@);
        let ghost pred = |p: Seq<char>| !contains_view(distant@, p);
        let mut r: Vec<String> = Vec::new();
        proof {
            reveal(Seq::filter);
            assert(views.take(0) =~= Seq::<Seq<char>>::empty());
        }
        let mut j: usize = 0;
        while j < local.len()
            invariant
                0 <= j <= local.len(),
                views == local@.map_values(|s: String| s@),
                pred == (|p: Seq<char>| !contains_view(distant@, p)),
                r@.map_values(|s: String| s@) == views.take(j as int).filter(pred),
            decreases local.len() - j,
        {
            let present = contains_string(distant, &local[j]);
            if !present {
                r.push(local[j].clone());
            }
            proof {
                reveal(Seq::filter);
                assert(views.take(j + 1).drop_last() =~= views.take(j as int));
                assert(views.take(j + 1).last() == local@[j as int]@);
                if !pred(local@[j as int]@) {
                    assert(r@.map_values(|s: String| s@) =~= views.take(j + 1).filter(pred));
                } else {
                    assert(r@.map_values(|s: String| s@) =~= views.take(j + 1).filter(pred));
                }
            }
            j += 1;
        }
        proof {
            assert(views.take(local@.len() as int) =~= views);
        }
        r
    }
}

/// Whether `s` reads as some member of `v`.
fn contains_string(v: &Vec<String>, s: &String) -> (r: bool)
    ensures
        r == contains_view(v@, s@),
{
    let mut i: usize = 0;
    while i < v.len()
        invariant
            0 <= i <= v.len(),
            forall|k: int| 0 <= k < i ==> v@[k]@ != s@,
        decreases v.len() - i,
    {
        if v[i].eq(s) {
            return true;
        }
        i += 1;
    }
    false
}

} // verus!
