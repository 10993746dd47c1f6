//! The certificate that the engine's listener shows: where it lies, how it is made and how
//! it is read.
use crate::text::{is_ascii_char, join_path, path_in};
use vstd::prelude::*;
use vstd::utf8::encode_utf8;

verus! {

/// The directory of the certificate and its key.
pub fn tls_dir() -> (r: String)
    ensures
        r@ == "tls"@,
{
    "tls".to_owned()
}

/// The certificate.
pub fn cert_path() -> (r: String)
    ensures
        r@ == path_in("tls"@, "cockatiel-cert.pem"@),
{
    join_path(tls_dir().as_str(), "cockatiel-cert.pem")
}

/// The certificate's key.
pub fn key_path() -> (r: String)
    ensures
        r@ == path_in("tls"@, "cockatiel-key.pem"@),
{
    join_path(tls_dir().as_str(), "cockatiel-key.pem")
}

/// Whether a certificate has to be made: an installation keeps the one it has, since
/// clients know it.
pub fn must_generate(cert_exists: bool, key_exists: bool) -> (r: bool)
    ensures
        r == !(cert_exists && key_exists),
{
    !(cert_exists && key_exists)
}

/// What `rustls_pemfile` finds first among the certificates of a PEM text: nothing, one in
/// DER form, or the words of an error.
pub uninterp spec fn pem_cert(pem: Seq<u8>) -> Option<Result<Seq<u8>, Seq<char>>>;

/// The form of a private key.
#[derive(Debug, Clone, Copy, PartialEq, Eq, Structural)]
pub enum KeyForm {
    Pkcs1,
    Pkcs8,
    Sec1,
    /// A form that is not known here.
    Unknown,
}

/// What `rustls_pemfile` finds as the private key of a PEM text: one in DER form with its
/// form, nothing, or the words of an error.
pub uninterp spec fn pem_key(pem: Seq<u8>) -> Result<Option<(KeyForm, Seq<u8>)>, Seq<char>>;

/// Calls `rustls_pemfile::certs` and takes the first. What it finds depends on the text
/// alone.
#[verifier::external_body]
fn first_cert(pem: &Vec<u8>) -> (r: Option<Result<Vec<u8>, String>>)
    ensures
        (match r {
            None => pem_cert(pem@) is None,
            Some(Ok(der)) => pem_cert(pem@) == Some(Ok::<Seq<u8>, Seq<char>>(der@)),
            Some(Err(e)) => pem_cert(pem@) == Some(Err::<Seq<u8>, Seq<char>>(e@)),
        }),
{
    let mut reader = pem.as_slice();
    let first = rustls_pemfile::certs(&mut reader).next();
    first.map(|c| c.map(|der| der.to_vec()).map_err(|e| e.to_string()))
}

/// Calls `rustls_pemfile::private_key`. What it finds depends on the text alone.
#[verifier::external_body]
fn read_key(pem: &Vec<u8>) -> (r: Result<Option<(KeyForm, Vec<u8>)>, String>)
    ensures
        (match r {
            Ok(None) => pem_key(pem@) == Ok::<Option<(KeyForm, Seq<u8>)>, Seq<char>>(None),
            Ok(Some(k)) => pem_key(pem@) == Ok::<Option<(KeyForm, Seq<u8>)>, Seq<char>>(
                Some((k.0, k.1@)),
            ),
            Err(e) => pem_key(pem@) == Err::<Option<(KeyForm, Seq<u8>)>, Seq<char>>(e@),
        }),
{
    let mut reader = pem.as_slice();
    let found = rustls_pemfile::private_key(&mut reader).map_err(|e| e.to_string())?;
    Ok(
        found.map(
            |k| match k {
                tokio_rustls::rustls::pki_types::PrivateKeyDer::Pkcs1(d) => (KeyForm::Pkcs1, d.secret_pkcs1_der().to_vec()),
                tokio_rustls::rustls::pki_types::PrivateKeyDer::Pkcs8(d) => (KeyForm::Pkcs8, d.secret_pkcs8_der().to_vec()),
                tokio_rustls::rustls::pki_types::PrivateKeyDer::Sec1(d) => (KeyForm::Sec1, d.secret_sec1_der().to_vec()),
                other => (KeyForm::Unknown, other.secret_der().to_vec()),
            },
        ),
    )
}

/// `rcgen::CertificateParams`, what a certificate is to say.
#[verifier::external_type_specification]
#[verifier::external_body]
pub struct ExCertificateParams(rcgen::CertificateParams);

/// `rcgen::KeyPair`, the key of a certificate.
#[verifier::external_type_specification]
#[verifier::external_body]
pub struct ExKeyPair(rcgen::KeyPair);

/// A name or an address that a certificate is for.
pub enum AltName {
    Host(Seq<char>),
    Address(Seq<u8>),
}

/// The names and addresses that a certificate is to be for: what `subject_alt_names` of
/// `rcgen::CertificateParams` holds.
pub uninterp spec fn alt_names(params: rcgen::CertificateParams) -> Seq<AltName>;

/// The public key of a key pair, as `rcgen::KeyPair::public_key_raw` gives it.
pub uninterp spec fn public_key(key: rcgen::KeyPair) -> Seq<u8>;

/// Whether a text is in ASCII.
pub open spec fn is_ascii_text(s: Seq<char>) -> bool {
    forall|i: int| 0 <= i < s.len() ==> is_ascii_char(#[trigger] s[i])
}

/// Calls `rcgen::CertificateParams::new` for a certificate without names, and gives it a host
/// name and two addresses. It fails exactly where the host name is not in ASCII.
#[verifier::external_body]
fn params_for(names: &CertNames) -> (r: Result<rcgen::CertificateParams, String>)
    ensures
        r is Ok == is_ascii_text(names.host@),
        r matches Ok(p) ==> alt_names(p) == named(*names),
{
    let mut params =
        rcgen::CertificateParams::new(Vec::<String>::new()).map_err(|e| e.to_string())?;
    let host = rcgen::Ia5String::try_from(names.host.as_str()).map_err(|e| e.to_string())?;
    params.subject_alt_names = vec![
        rcgen::SanType::DnsName(host),
        rcgen::SanType::IpAddress(names.v4.into()),
        rcgen::SanType::IpAddress(names.v6.into()),
    ];
    Ok(params)
}

/// Calls `rcgen::KeyPair::generate`, and `serialize_pem` for its PEM text. The key is random;
/// its text holds a key in PKCS #8 form, and that the public key of the pair, which is a point
/// of the curve P-256 in full.
#[verifier::external_body]
fn new_key() -> (r: Result<(rcgen::KeyPair, String), String>)
    ensures
        (r matches Ok(k) ==> holds_key(encode_utf8(k.1@)) && key_holds(
            encode_utf8(k.1@),
            public_key(k.0),
        ) && public_key(k.0).len() == 65),
{
    let key = rcgen::KeyPair::generate().map_err(|e| e.to_string())?;
    let text = key.serialize_pem();
    Ok((key, text))
}

/// Calls `rcgen::CertificateParams::self_signed`, and `pem` for the certificate's PEM text.
/// The signature rests on chance; the text holds a certificate, and that each name and each
/// address it is for, if it is not too long for a length of one byte, and the public key.
#[verifier::external_body]
fn self_sign(params: rcgen::CertificateParams, key: &rcgen::KeyPair) -> (r: Result<String, String>)
    ensures
        (r matches Ok(t) ==> holds_cert(encode_utf8(t@)) && cert_holds(
            encode_utf8(t@),
            public_key(*key),
        ) && forall|i: int|
            0 <= i < alt_names(params).len() && encoded(#[trigger] alt_names(params)[i]).len()
                < 130 ==> cert_holds(encode_utf8(t@), encoded(alt_names(params)[i]))),
{
    params.self_signed(key).map(|c| c.pem()).map_err(|e| e.to_string())
}

/// A PEM text with a certificate that can be read.
pub open spec fn holds_cert(pem: Seq<u8>) -> bool {
    pem_cert(pem) matches Some(Ok(_))
}

/// A PEM text with a key in PKCS #8 form that can be read.
pub open spec fn holds_key(pem: Seq<u8>) -> bool {
    pem_key(pem) matches Ok(Some(k)) && k.0 == KeyForm::Pkcs8
}

/// Whether some bytes stand in others, one behind the other.
pub open spec fn stands_in(part: Seq<u8>, whole: Seq<u8>) -> bool {
    exists|i: int|
        0 <= i <= whole.len() - part.len() && #[trigger] whole.subrange(i, i + part.len()) == part
}

/// Whether the DER form of a PEM text's certificate holds some bytes.
pub open spec fn cert_holds(pem: Seq<u8>, part: Seq<u8>) -> bool {
    pem_cert(pem) matches Some(Ok(der)) && stands_in(part, der)
}

/// Whether the DER form of a PEM text's key holds some bytes.
pub open spec fn key_holds(pem: Seq<u8>, part: Seq<u8>) -> bool {
    pem_key(pem) matches Ok(Some(k)) && stands_in(part, k.1)
}

/// A name or an address as it stands in a certificate: a tag that says which it is, the
/// length, and its bytes. Those with more than 127 bytes have another length.
pub open spec fn encoded(name: AltName) -> Seq<u8> {
    match name {
        AltName::Host(h) => seq![0x82u8, h.len() as u8] + encode_utf8(h),
        AltName::Address(a) => seq![0x87u8, a.len() as u8] + a,
    }
}

/// The names by which clients on the engine's own machine reach it.
#[derive(Debug)]
pub struct CertNames {
    pub host: String,
    pub v4: [u8; 4],
    pub v6: [u8; 16],
}

/// What a certificate for some names is for.
pub open spec fn named(names: CertNames) -> Seq<AltName> {
    seq![
        AltName::Host(names.host@),
        AltName::Address(names.v4@),
        AltName::Address(names.v6@),
    ]
}

/// What the engine's certificate is for: the loopback name and the loopback addresses.
pub open spec fn loopback_names() -> Seq<AltName> {
    seq![
        AltName::Host("localhost"@),
        AltName::Address(seq![127u8, 0, 0, 1]),
        AltName::Address(seq![0u8, 0, 0, 0, 0, 0, 0, 0, 0, 0, 0, 0, 0, 0, 0, 1]),
    ]
}

/// The names and addresses that a certificate is made for.
pub fn cert_names() -> (r: CertNames)
    ensures
        named(r) == loopback_names(),
{
    let r = CertNames {
        host: "localhost".to_owned(),
        v4: [127, 0, 0, 1],
        v6: [0, 0, 0, 0, 0, 0, 0, 0, 0, 0, 0, 0, 0, 0, 0, 1],
    };
    assert(r.v4@ =~= seq![127u8, 0, 0, 1]);
    assert(r.v6@ =~= seq![0u8, 0, 0, 0, 0, 0, 0, 0, 0, 0, 0, 0, 0, 0, 0, 1]);
    r
}

fn with_error(before: &str, words: &str) -> (r: String)
    ensures
        r@ == before@ + words@,
{
    let mut e = before.to_owned();
    e.append(words);
    e
}

/// Whether a certificate and a key, as PEM texts, are those of the engine: both can be read,
/// the certificate is for the loopback name and addresses, and it is that of the key, since
/// both hold one public key.
pub open spec fn engine_cert(cert: Seq<char>, key: Seq<char>) -> bool {
    let names = loopback_names();
    &&& holds_cert(encode_utf8(cert))
    &&& holds_key(encode_utf8(key))
    &&& forall|i: int|
        0 <= i < names.len() ==> cert_holds(encode_utf8(cert), encoded(#[trigger] names[i]))
    &&& exists|public: Seq<u8>|
        public.len() == 65 && #[trigger] cert_holds(encode_utf8(cert), public) && key_holds(
            encode_utf8(key),
            public,
        )
}

/// Makes a certificate that signs itself, and its key, both as PEM texts. Whether that
/// succeeds rests on the machine's source of random numbers.
pub fn make_cert() -> (r: Result<(String, String), String>)
    ensures
        r matches Ok(p) ==> engine_cert(p.0@, p.1@),
        r matches Err(e) ==> "key generation failed: "@.is_prefix_of(e@)
            || "cert generation failed: "@.is_prefix_of(e@),
{
    let names = cert_names();
    proof {
        let host = names.host@;
        reveal_strlit("localhost");
        assert(named(names)[0] == AltName::Host(host));
        assert(host =~= seq!['l', 'o', 'c', 'a', 'l', 'h', 'o', 's', 't']);
        assert(is_ascii_text(host));
    }
    let params = match params_for(&names) {
        Ok(p) => p,
        Err(e) => {
            return Err(with_error("san: ", e.as_str()));
        },
    };
    let (key, key_text) = match new_key() {
        Ok(k) => k,
        Err(e) => {
            let e = with_error("key generation failed: ", e.as_str());
            assert("key generation failed: "@.is_prefix_of(e@));
            return Err(e);
        },
    };
    match self_sign(params, &key) {
        Ok(cert) => {
            proof {
                let all = loopback_names();
                let host = names.host@;
                vstd::utf8::is_ascii_chars_encode_utf8(host);
                assert(encoded(all[0]).len() == 11);
                assert(encoded(all[1]).len() == 6);
                assert(encoded(all[2]).len() == 18);
                assert forall|i: int| 0 <= i < all.len() implies cert_holds(
                    encode_utf8(cert@),
                    encoded(#[trigger] all[i]),
                ) by {
                    assert(alt_names(params)[i] == all[i]);
                    assert(encoded(alt_names(params)[i]).len() < 130);
                }
                assert(cert_holds(encode_utf8(cert@), public_key(key)));
            }
            Ok((cert, key_text))
        },
        Err(e) => {
            let e = with_error("cert generation failed: ", e.as_str());
            assert("cert generation failed: "@.is_prefix_of(e@));
            Err(e)
        },
    }
}

/// What was read from a file, or the words of the error.
pub open spec fn file_view(read: Result<Vec<u8>, String>) -> Result<Seq<u8>, Seq<char>> {
    match read {
        Ok(b) => Ok(b@),
        Err(e) => Err(e@),
    }
}

/// The certificate in a file, in DER form, or why there is none.
pub open spec fn cert_in(path: Seq<char>, read: Result<Seq<u8>, Seq<char>>) -> Result<
    Seq<u8>,
    Seq<char>,
> {
    match read {
        Err(e) => Err("read cert "@ + path + ": "@ + e),
        Ok(pem) => found_cert(path, pem_cert(pem)),
    }
}

/// The certificate that was found in a file, or why there is none.
pub open spec fn found_cert(
    path: Seq<char>,
    found: Option<Result<Seq<u8>, Seq<char>>>,
) -> Result<Seq<u8>, Seq<char>> {
    match found {
        None => Err("no certificate in "@ + path),
        Some(Ok(der)) => Ok(der),
        Some(Err(e)) => Err("parse cert "@ + path + ": "@ + e),
    }
}

/// The key that was found in a file, or why there is none.
pub open spec fn found_key(
    path: Seq<char>,
    found: Result<Option<(KeyForm, Seq<u8>)>, Seq<char>>,
) -> Result<(KeyForm, Seq<u8>), Seq<char>> {
    match found {
        Ok(Some(k)) => Ok(k),
        Ok(None) => Err("no private key in "@ + path),
        Err(e) => Err("parse key "@ + path + ": "@ + e),
    }
}

/// The key in a file, in DER form, or why there is none.
pub open spec fn key_in(path: Seq<char>, read: Result<Seq<u8>, Seq<char>>) -> Result<
    (KeyForm, Seq<u8>),
    Seq<char>,
> {
    match read {
        Err(e) => Err("read key "@ + path + ": "@ + e),
        Ok(pem) => found_key(path, pem_key(pem)),
    }
}

fn fault(what: &str, path: &str, e: &str) -> (r: String)
    ensures
        r@ == what@ + path@ + ": "@ + e@,
{
    let mut t = what.to_owned();
    t.append(path);
    t.append(": ");
    t.append(e);
    t
}

/// The certificate that was found in a file, or why there is none.
pub fn take_cert(path: &str, found: Option<Result<Vec<u8>, String>>) -> (r: Result<
    Vec<u8>,
    String,
>)
    ensures
        file_view(r) == found_cert(
            path@,
            (match found {
                Some(c) => Some(file_view(c)),
                None => None,
            }),
        ),
{
    match found {
        None => {
            let mut t = "no certificate in ".to_owned();
            t.append(path);
            Err(t)
        },
        Some(Ok(der)) => Ok(der),
        Some(Err(e)) => Err(fault("parse cert ", path, e.as_str())),
    }
}

/// The certificate in a file, in DER form, or why there is none.
pub fn load_cert(path: &str, read: Result<Vec<u8>, String>) -> (r: Result<Vec<u8>, String>)
    ensures
        file_view(r) == cert_in(path@, file_view(read)),
{
    match read {
        Err(e) => Err(fault("read cert ", path, e.as_str())),
        Ok(pem) => take_cert(path, first_cert(&pem)),
    }
}

/// The key that was found in a file, or why there is none.
pub fn take_key(path: &str, found: Result<Option<(KeyForm, Vec<u8>)>, String>) -> (r: Result<
    (KeyForm, Vec<u8>),
    String,
>)
    ensures
        key_view(r) == found_key(
            path@,
            (match found {
                Ok(Some(k)) => Ok(Some((k.0, k.1@))),
                Ok(None) => Ok(None),
                Err(e) => Err(e@),
            }),
        ),
{
    match found {
        Ok(Some(k)) => Ok(k),
        Ok(None) => {
            let mut t = "no private key in ".to_owned();
            t.append(path);
            Err(t)
        },
        Err(e) => Err(fault("parse key ", path, e.as_str())),
    }
}

/// A key, or the words of an error.
pub open spec fn key_view(r: Result<(KeyForm, Vec<u8>), String>) -> Result<
    (KeyForm, Seq<u8>),
    Seq<char>,
> {
    match r {
        Ok(k) => Ok((k.0, k.1@)),
        Err(e) => Err(e@),
    }
}

/// The key in a file, in DER form, or why there is none.
pub fn load_key(path: &str, read: Result<Vec<u8>, String>) -> (r: Result<
    (KeyForm, Vec<u8>),
    String,
>)
    ensures
        key_view(r) == key_in(path@, file_view(read)),
{
    match read {
        Err(e) => Err(fault("read key ", path, e.as_str())),
        Ok(pem) => take_key(path, read_key(&pem)),
    }
}

} // verus!
