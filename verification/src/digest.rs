//! The content digest of a file, computed chunk by chunk.

use vstd::prelude::*;
use md5::Digest;

verus! {

/// A digest in the making: the file's bytes are fed to it chunk by chunk, so
/// that the file is never held in memory as a whole.
///
/// It holds a hasher of the md-5 crate, which is opaque here: what is known of
/// it is what the functions below state.
#[verifier::external_body]
pub struct FileDigest {
    hasher: md5::Md5,
}

/// The bytes that a hasher has been fed, in the order in which they came.
pub uninterp spec fn md5_input(digest: FileDigest) -> Seq<u8>;

/// The MD5 digest of `data`, as 32 hexadecimal digits.
pub uninterp spec fn md5_hex(data: Seq<u8>) -> Seq<char>;

impl View for FileDigest {
    type V = Seq<u8>;

    /// The bytes fed so far.
    open spec fn view(&self) -> Seq<u8> {
        md5_input(*self)
    }
}

/// `Md5::new` of the md-5 crate: a hasher that has been fed nothing.
#[verifier::external_body]
fn md5_new() -> (digest: FileDigest)
    ensures
        md5_input(digest) == Seq::<u8>::empty(),
{
    FileDigest { hasher: md5::Md5::new() }
}

/// `Digest::update` of the md-5 crate: `chunk` is fed to the hasher after
/// what it was fed before.
#[verifier::external_body]
fn md5_update(digest: &mut FileDigest, chunk: &[u8])
    ensures
        md5_input(*final(digest)) == md5_input(*old(digest)) + chunk@,
{
    digest.hasher.update(chunk);
}

/// `Digest::finalize` of the md-5 crate, written out in lowercase
/// hexadecimal: the digest of all that the hasher was fed.
#[verifier::external_body]
fn md5_finish(digest: FileDigest) -> (hex: String)
    ensures
        hex@ == md5_hex(md5_input(digest)),
{
    format!("{:x}", digest.hasher.finalize())
}

impl FileDigest {
    /// A digest that has been fed nothing.
    pub fn new() -> (digest: Self)
        ensures
            digest@ == Seq::<u8>::empty(),
    {
        md5_new()
    }

    /// Feeds the next chunk of the file.
    pub fn update(&mut self, chunk: &[u8])
        ensures
            final(self)@ == old(self)@ + chunk@,
    {
        md5_update(self, chunk);
    }

    /// The digest of all the bytes fed, in hexadecimal.
    pub fn finish(self) -> (hex: String)
        ensures
            hex@ == md5_hex(self@),
    {
        md5_finish(self)
    }
}

/// The digest of `data`, in hexadecimal.
pub fn digest_hex(data: &[u8]) -> (hex: String)
    ensures
        hex@ == md5_hex(data@),
{
    let mut digest = FileDigest::new();
    digest.update(data);
    assert(Seq::<u8>::empty() + data@ =~= data@);
    digest.finish()
}

} // verus!
