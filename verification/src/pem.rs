//! Certificates from PEM text.
//!
//! A PEM file holds any number of sections, each a base64 text between a
//! `-----BEGIN ...-----` and an `-----END ...-----` line. The decoding is done
//! by the `rustls-pemfile` crate, which passes over text between sections and
//! over sections that are not certificates, and reports a section that it
//! cannot decode. Such a section is passed over here too: a bundle is read
//! for the certificates that it does hold.

use vstd::prelude::*;
use crate::certificate::{copy_bytes, ders, Certificate};
use crate::error::{loaded, ErrorView, LoadError};

verus! {

/// What `rustls_pemfile::certs` yields for a file with these bytes, from its
/// start to its end: in file order, the DER contents of each certificate
/// section, and the text of the error for each section that cannot be
/// decoded.
pub uninterp spec fn pem_items(data: Seq<u8>) -> Seq<Result<Seq<u8>, Seq<char>>>;

/// The contents of a list of decoded sections.
pub open spec fn item_views(items: Seq<Result<Certificate, String>>) -> Seq<
    Result<Seq<u8>, Seq<char>>,
> {
    Seq::new(
        items.len(),
        |i: int|
            match items[i] {
                Ok(cert) => Ok(cert@),
                Err(text) => Err(text@),
            },
    )
}

/// Calls `rustls_pemfile::certs` on a reader over `data` and collects
/// everything that it yields.
///
/// Trusted: the items are what [`pem_items`] names, the same for the same
/// bytes. An item takes some input: with no bytes at all the reader is at its
/// end before any line is read, so nothing is yielded.
#[verifier::external_body]
fn read_items(data: &[u8]) -> (items: Vec<Result<Certificate, String>>)
    ensures
        item_views(items@) == pem_items(data@),
        items@.len() == 0 || data@.len() > 0,
{
    let mut reader = data;
    rustls_pemfile::certs(&mut reader)
        .map(|item| match item {
            Ok(der) => Ok(Certificate(der.as_ref().to_vec())),
            Err(err) => Err(err.to_string()),
        })
        .collect()
}

/// The certificates among the sections: those that could be decoded, in
/// their order.
pub open spec fn certificates(items: Seq<Result<Seq<u8>, Seq<char>>>) -> Seq<Seq<u8>>
    decreases items.len(),
{
    if items.len() == 0 {
        Seq::empty()
    } else {
        match items.last() {
            Ok(der) => certificates(items.drop_last()).push(der),
            Err(_) => certificates(items.drop_last()),
        }
    }
}

/// The certificates of a file with these bytes.
pub open spec fn pem_certs(data: Seq<u8>) -> Seq<Seq<u8>> {
    certificates(pem_items(data))
}

/// The certificates of two runs of sections are those of the first followed
/// by those of the second: the order of the file is kept.
pub proof fn lemma_certificates_keep_their_order(
    first: Seq<Result<Seq<u8>, Seq<char>>>,
    second: Seq<Result<Seq<u8>, Seq<char>>>,
)
    ensures
        certificates(first + second) == certificates(first) + certificates(second),
    decreases second.len(),
{
    if second.len() == 0 {
        assert(first + second =~= first);
        assert(certificates(first) + certificates(second) =~= certificates(first));
    } else {
        lemma_certificates_keep_their_order(first, second.drop_last());
        assert((first + second).drop_last() =~= first + second.drop_last());
        assert((first + second).last() == second.last());
        match second.last() {
            Ok(der) => {
                assert((certificates(first) + certificates(second.drop_last())).push(der)
                    =~= certificates(first) + certificates(second.drop_last()).push(der));
            },
            Err(_) => {},
        }
    }
}

/// Sections that can all be decoded are all returned, as they are.
pub proof fn lemma_valid_sections_are_all_returned(ders: Seq<Seq<u8>>)
    ensures
        certificates(Seq::new(ders.len(), |i: int| Ok::<Seq<u8>, Seq<char>>(ders[i]))) == ders,
    decreases ders.len(),
{
    let items = Seq::new(ders.len(), |i: int| Ok::<Seq<u8>, Seq<char>>(ders[i]));
    if ders.len() > 0 {
        let fewer = ders.drop_last();
        lemma_valid_sections_are_all_returned(fewer);
        assert(items.drop_last() =~= Seq::new(
            fewer.len(),
            |i: int| Ok::<Seq<u8>, Seq<char>>(fewer[i]),
        ));
        assert(certificates(items) =~= ders);
    } else {
        assert(certificates(items) =~= ders);
    }
}

/// A section that cannot be decoded changes nothing, wherever it stands: the
/// certificates are those of the sections around it.
pub proof fn lemma_invalid_section_changes_nothing(
    before: Seq<Result<Seq<u8>, Seq<char>>>,
    text: Seq<char>,
    after: Seq<Result<Seq<u8>, Seq<char>>>,
)
    ensures
        certificates(before + seq![Err::<Seq<u8>, Seq<char>>(text)] + after) == certificates(
            before + after,
        ),
{
    let broken = seq![Err::<Seq<u8>, Seq<char>>(text)];
    lemma_certificates_keep_their_order(before + broken, after);
    lemma_certificates_keep_their_order(before, broken);
    lemma_certificates_keep_their_order(before, after);
    assert(broken.last() is Err);
    assert(certificates(broken) == certificates(broken.drop_last()));
    assert(certificates(broken.drop_last()) =~= Seq::<Seq<u8>>::empty());
    assert(certificates(before) + certificates(broken) =~= certificates(before));
}

/// Where no section can be decoded there is no certificate, and no error
/// either.
pub proof fn lemma_no_valid_section_gives_nothing(items: Seq<Result<Seq<u8>, Seq<char>>>)
    requires
        forall|i: int| 0 <= i < items.len() ==> (#[trigger] items[i]) is Err,
    ensures
        certificates(items) == Seq::<Seq<u8>>::empty(),
    decreases items.len(),
{
    if items.len() > 0 {
        assert(items[items.len() - 1] is Err);
        assert forall|i: int| 0 <= i < items.drop_last().len() implies (
        #[trigger] items.drop_last()[i]) is Err by {
            assert(items[i] is Err);
        }
        lemma_no_valid_section_gives_nothing(items.drop_last());
    }
}

/// The certificates among decoded sections: those that could be decoded,
/// in their order. The others are dropped.
pub fn valid_certificates(items: &Vec<Result<Certificate, String>>) -> (certs: Vec<Certificate>)
    ensures
        ders(certs@) == certificates(item_views(items@)),
        certs@.len() <= items@.len(),
{
    let mut certs: Vec<Certificate> = Vec::new();
    let mut i: usize = 0;
    assert(item_views(items@).take(0) =~= Seq::<Result<Seq<u8>, Seq<char>>>::empty());
    assert(ders(certs@) =~= Seq::<Seq<u8>>::empty());
    while i < items.len()
        invariant
            i <= items@.len(),
            ders(certs@) == certificates(item_views(items@).take(i as int)),
            certs@.len() <= i,
        decreases items@.len() - i,
    {
        assert(item_views(items@).take(i + 1).drop_last() =~= item_views(items@).take(i as int));
        assert(item_views(items@).take(i + 1).last() == item_views(items@)[i as int]);
        match &items[i] {
            Ok(cert) => {
                let ghost before = ders(certs@);
                certs.push(Certificate::new(copy_bytes(cert.as_bytes())));
                assert(ders(certs@) =~= before.push(cert@));
            },
            Err(_) => {},
        }
        i += 1;
    }
    assert(item_views(items@).take(i as int) =~= item_views(items@));
    certs
}

/// The certificates in PEM text.
///
/// The certificate sections that can be decoded are returned in file order.
/// Everything else is passed over and is no error: text between sections,
/// sections of other kinds, and sections that cannot be decoded. Text without
/// any certificate, and no text at all, gives an empty list.
pub fn decode_pem(data: &[u8]) -> (certs: Vec<Certificate>)
    ensures
        ders(certs@) == pem_certs(data@),
        data@.len() == 0 ==> certs@.len() == 0,
{
    let items = read_items(data);
    valid_certificates(&items)
}

/// A PEM file as it was found on disk.
#[derive(Debug, PartialEq, Eq)]
pub struct PemFile {
    /// The path that was read.
    pub path: String,
    /// The bytes of the file, or why they could not be read.
    pub contents: Result<Vec<u8>, LoadError>,
}

/// What [`load_pem_certs`] returns.
pub open spec fn pem_file_certs(file: PemFile) -> Result<Seq<Seq<u8>>, ErrorView> {
    match file.contents {
        Ok(data) => Ok(pem_certs(data@)),
        Err(error) => Err(error@),
    }
}

/// The certificates of a PEM file.
///
/// A file that could not be read fails with the error of the read, as it
/// is: a missing file stays [`crate::error::ErrorKind::NotFound`]. A file
/// that was read never fails: it gives the certificates that
/// [`decode_pem`] finds in it.
pub fn load_pem_certs(file: &PemFile) -> (res: Result<Vec<Certificate>, LoadError>)
    ensures
        loaded(res) == pem_file_certs(*file),
{
    match &file.contents {
        Ok(data) => Ok(decode_pem(data.as_slice())),
        Err(error) => Err(error.duplicate()),
    }
}

} // verus!
