//! The digest that Redshirt 2 stores in its header.
//!
//! It is the SHA-1 digest of the stored payload with the four bytes of each
//! 32-bit word in reverse order. SHA-1 itself is computed by `ring`.

use vstd::prelude::*;

verus! {

/// The length of a digest in bytes.
pub const DIGEST_LEN: usize = 20;

/// The longest input of which SHA-1 has a digest: its length in bits has to
/// fit 64 bits.
pub const MAX_INPUT_LEN: u64 = 0x1fff_ffff_ffff_ffff;

/// `ring::digest::Context`, a running digest. Nothing is known of what is
/// inside it; what it has been given is told by `context_input`.
#[verifier::external_type_specification]
#[verifier::external_body]
pub struct ExContext(ring::digest::Context);

/// The SHA-1 digest of `data`: what `ring::digest::Context::finish` returns
/// for a SHA-1 context that has been given `data`.
pub uninterp spec fn sha1(data: Seq<u8>) -> Seq<u8>;

/// The bytes that a `ring::digest::Context` has been given since it was
/// made, in the order in which it was given them.
pub uninterp spec fn context_input(context: ring::digest::Context) -> Seq<u8>;

/// `ring::digest::Context::new` for SHA-1: a context that has been given
/// nothing yet.
#[verifier::external_body]
fn context_new() -> (context: ring::digest::Context)
    ensures
        context_input(context) == Seq::<u8>::empty(),
{
    ring::digest::Context::new(&ring::digest::SHA1_FOR_LEGACY_USE_ONLY)
}

/// `ring::digest::Context::update`: the context has been given `data` after
/// what it had been given before.
#[verifier::external_body]
fn context_update(context: &mut ring::digest::Context, data: &[u8])
    ensures
        context_input(*final(context)) == context_input(*old(context)) + data@,
{
    context.update(data)
}

/// `Clone::clone` of `ring::digest::Context`: a second context that has been
/// given the same bytes.
#[verifier::external_body]
fn context_clone(context: &ring::digest::Context) -> (copy: ring::digest::Context)
    ensures
        context_input(copy) == context_input(*context),
{
    context.clone()
}

/// `ring::digest::Context::finish`: the SHA-1 digest of everything the
/// context has been given, copied out of the `Digest` that `finish` returns.
/// `finish` panics on an input whose length in bits does not fit 64 bits, so
/// such a context is not to be finished.
#[verifier::external_body]
fn context_finish(context: ring::digest::Context) -> (digest: [u8; 20])
    requires
        context_input(context).len() <= MAX_INPUT_LEN,
    ensures
        digest@ == sha1(context_input(context)),
{
    let mut digest = [0u8; 20];
    digest.copy_from_slice(context.finish().as_ref());
    digest
}

/// Where the byte at `i` of a digest comes from: the same word, counted from
/// the word's other end.
pub open spec fn swapped_index(i: int) -> int {
    i - i % 4 + (3 - i % 4)
}

/// The digest that the header stores for a stored payload `data`: its SHA-1
/// digest with the bytes of each four-byte word in reverse order.
pub open spec fn digest_of(data: Seq<u8>) -> Seq<u8> {
    Seq::new(DIGEST_LEN as nat, |i: int| sha1(data)[swapped_index(i)])
}

/// Reverses the bytes within each four-byte word of a digest.
pub fn swap_words(digest: [u8; 20]) -> (swapped: [u8; 20])
    ensures
        swapped@ == Seq::new(20, |i: int| digest@[swapped_index(i)]),
{
    let mut swapped = digest;
    let mut word: usize = 0;
    while word < 5
        invariant
            word <= 5,
            forall|i: int| 0 <= i < 4 * word ==> swapped@[i] == digest@[swapped_index(i)],
            forall|i: int| 4 * word <= i < 20 ==> swapped@[i] == digest@[i],
        decreases 5 - word,
    {
        let at = 4 * word;
        swapped[at] = digest[at + 3];
        swapped[at + 1] = digest[at + 2];
        swapped[at + 2] = digest[at + 1];
        swapped[at + 3] = digest[at];
        word += 1;
    }
    swapped
}

/// A running digest of the bytes it is given.
pub struct ChecksumBuilder {
    context: ring::digest::Context,
    fed: u64,
}

impl View for ChecksumBuilder {
    type V = Seq<u8>;

    /// The bytes given so far.
    closed spec fn view(&self) -> Seq<u8> {
        context_input(self.context)
    }
}

impl ChecksumBuilder {
    /// The builder knows how much it has been given, and that is no more
    /// than SHA-1 can take.
    pub closed spec fn wf(&self) -> bool {
        &&& self.fed == self@.len()
        &&& self.fed <= MAX_INPUT_LEN
    }

    /// A builder that has been given nothing yet.
    pub fn new() -> (builder: ChecksumBuilder)
        ensures
            builder.wf(),
            builder@ == Seq::<u8>::empty(),
    {
        ChecksumBuilder { context: context_new(), fed: 0 }
    }

    /// How many bytes the builder has been given.
    pub fn len(&self) -> (len: u64)
        requires
            self.wf(),
        ensures
            len == self@.len(),
            len <= MAX_INPUT_LEN,
    {
        self.fed
    }

    /// Gives the builder `data`.
    pub fn update(&mut self, data: &[u8])
        requires
            old(self).wf(),
            old(self)@.len() + data@.len() <= MAX_INPUT_LEN,
        ensures
            final(self).wf(),
            final(self)@ == old(self)@ + data@,
    {
        context_update(&mut self.context, data);
        self.fed = self.fed + data.len() as u64;
    }

    /// The digest of everything the builder has been given, as the header
    /// stores it.
    pub fn finish(self) -> (digest: [u8; 20])
        requires
            self.wf(),
        ensures
            digest@ == digest_of(self@),
    {
        let digest = swap_words(context_finish(self.context));
        digest
    }
}

impl Clone for ChecksumBuilder {
    fn clone(&self) -> (copy: ChecksumBuilder)
        ensures
            copy@ == self@,
            copy.wf() == self.wf(),
    {
        ChecksumBuilder { context: context_clone(&self.context), fed: self.fed }
    }
}

impl Default for ChecksumBuilder {
    fn default() -> (builder: ChecksumBuilder)
        ensures
            builder.wf(),
            builder@ == Seq::<u8>::empty(),
    {
        ChecksumBuilder::new()
    }
}

} // verus!
