//! Certificate fingerprints, and which certificates to accept.
use crate::config::AppConfig;
use crate::text;
use crate::text::push_hex_byte;
use vstd::prelude::*;

verus! {

/// The server name that every peer's certificate is made out to.
pub const SERVER_NAME: &'static str = "shareflow.local";

/// The SHA-256 digest of bytes.
pub uninterp spec fn sha256(data: Seq<u8>) -> Seq<u8>;

/// Calls `sha2::Sha256::digest`, which gives the 32 bytes of the SHA-256 digest.
#[verifier::external_body]
fn sha256_digest(data: &[u8]) -> (r: Vec<u8>)
    ensures
        r@ == sha256(data@),
        r@.len() == 32,
{
    <sha2::Sha256 as sha2::Digest>::digest(data).to_vec()
}

/// The common name in every peer's certificate.
pub const COMMON_NAME: &'static str = "ShareFlow Peer";

/// What a machine proves itself with: its certificates and its private key, in DER.
pub struct Identity {
    pub certs: Vec<Vec<u8>>,
    pub key: Vec<u8>,
}

/// An identity, and the files that keep it across restarts.
pub struct NewIdentity {
    pub identity: Identity,
    pub cert_pem: String,
    pub key_pem: String,
}

/// The certificates in a PEM file, in DER, or why it cannot be read.
pub uninterp spec fn pem_certificates(pem: Seq<char>) -> Result<Seq<Seq<u8>>, Seq<char>>;

/// The first PKCS#8 private key in a PEM file, in DER, if there is one, or why it cannot be read.
pub uninterp spec fn pem_first_key(pem: Seq<char>) -> Option<Result<Seq<u8>, Seq<char>>>;

/// The bytes are a certificate in DER that may be issued for those names and that common name, over
/// that key, in DER, and signed by it.
pub uninterp spec fn issued(
    cert: Seq<u8>,
    names: Seq<Seq<char>>,
    common_name: Seq<char>,
    key: Seq<u8>,
) -> bool;

/// The content of a list of byte strings.
pub open spec fn byte_views(list: Seq<Vec<u8>>) -> Seq<Seq<u8>> {
    list.map_values(|b: Vec<u8>| b@)
}

/// The content of what reading the certificates gave.
pub open spec fn certs_view(r: Result<Vec<Vec<u8>>, String>) -> Result<Seq<Seq<u8>>, Seq<char>> {
    match r {
        Ok(list) => Ok(byte_views(list@)),
        Err(e) => Err(e@),
    }
}

/// The content of what reading the key gave.
pub open spec fn key_view(r: Option<Result<Vec<u8>, String>>) -> Option<
    Result<Seq<u8>, Seq<char>>,
> {
    match r {
        None => None,
        Some(Ok(key)) => Some(Ok(key@)),
        Some(Err(e)) => Some(Err(e@)),
    }
}

/// Calls `rustls_pemfile::certs` and collects what it yields, up to the first error. What it yields
/// is a function of the text.
#[verifier::external_body]
fn read_certs(pem: &str) -> (r: Result<Vec<Vec<u8>>, String>)
    ensures
        certs_view(r) == pem_certificates(pem@),
{
    rustls_pemfile::certs(&mut pem.as_bytes())
        .map(|cert| cert.map(|der| der.to_vec()))
        .collect::<Result<Vec<_>, _>>()
        .map_err(|e| e.to_string())
}

/// Calls `rustls_pemfile::pkcs8_private_keys` and takes the first item that it yields, which is a
/// function of the text.
#[verifier::external_body]
fn read_first_key(pem: &str) -> (r: Option<Result<Vec<u8>, String>>)
    ensures
        key_view(r) == pem_first_key(pem@),
{
    rustls_pemfile::pkcs8_private_keys(&mut pem.as_bytes())
        .next()
        .map(|key| key.map(|k| k.secret_pkcs8_der().to_vec()).map_err(|e| e.to_string()))
}

/// Calls `rcgen` for a new key pair, from `rcgen::KeyPair::generate`, and a certificate for the
/// given names and the given common name that it signs itself, from
/// `rcgen::CertificateParams::self_signed`. The key is random, and so is the signature. The PEM
/// texts hold, as their one section, what the DER values hold: they are written by `pem` and
/// `serialize_pem` from the same bytes. Which bytes make up such a certificate, and when there are
/// no random numbers for a key, is left unsaid. Few and short names keep the PEM text of the
/// certificate well below the length that the reader accepts.
#[verifier::external_body]
fn self_signed(names: Vec<String>, common_name: &str) -> (r: Result<NewIdentity, String>)
    requires
        names@.len() <= 16,
        forall|i: int| 0 <= i < names@.len() ==> (#[trigger] names@[i])@.len() <= 255,
        common_name@.len() <= 255,
    ensures
        r is Ok ==> pem_certificates((r->Ok_0).cert_pem@) == Ok::<Seq<Seq<u8>>, Seq<char>>(
            byte_views((r->Ok_0).identity.certs@),
        ) && (r->Ok_0).identity.certs@.len() == 1,
        r is Ok ==> pem_first_key((r->Ok_0).key_pem@) == Some(
            Ok::<Seq<u8>, Seq<char>>((r->Ok_0).identity.key@),
        ),
        r is Ok ==> issued(
            (r->Ok_0).identity.certs@[0]@,
            text::views(names@),
            common_name@,
            (r->Ok_0).identity.key@,
        ),
{
    let key = rcgen::KeyPair::generate().map_err(|e| e.to_string())?;
    let mut params = rcgen::CertificateParams::new(names).map_err(|e| e.to_string())?;
    let common_name = rcgen::DnValue::Utf8String(common_name.into());
    params.distinguished_name.push(rcgen::DnType::CommonName, common_name);
    let cert = params.self_signed(&key).map_err(|e| e.to_string())?;
    let identity = Identity { certs: vec![cert.der().to_vec()], key: key.serialize_der() };
    Ok(NewIdentity { identity, cert_pem: cert.pem(), key_pem: key.serialize_pem() })
}

/// The identity that was read from its two files comes from what each of them gave.
pub open spec fn identity_view(
    certs: Result<Seq<Seq<u8>>, Seq<char>>,
    key: Option<Result<Seq<u8>, Seq<char>>>,
) -> Result<(Seq<Seq<u8>>, Seq<u8>), Seq<char>> {
    match (certs, key) {
        (Err(e), _) => Err(e),
        (Ok(_), None) => Err("No private key found"@),
        (Ok(_), Some(Err(e))) => Err(e),
        (Ok(certs), Some(Ok(key))) => Ok((certs, key)),
    }
}

/// The content of an identity, or of why there is none.
pub open spec fn identity_content(r: Result<Identity, String>) -> Result<
    (Seq<Seq<u8>>, Seq<u8>),
    Seq<char>,
> {
    match r {
        Ok(i) => Ok((byte_views(i.certs@), i.key@)),
        Err(e) => Err(e@),
    }
}

/// The identity that what was read from its two files makes.
pub fn assemble_identity(
    certs: Result<Vec<Vec<u8>>, String>,
    key: Option<Result<Vec<u8>, String>>,
) -> (r: Result<Identity, String>)
    ensures
        identity_content(r) == identity_view(certs_view(certs), key_view(key)),
{
    match certs {
        Err(e) => Err(e),
        Ok(certs) => match key {
            None => Err("No private key found".to_string()),
            Some(Err(e)) => Err(e),
            Some(Ok(key)) => Ok(Identity { certs, key }),
        },
    }
}

/// Read an identity back from the two files that keep it.
pub fn load_identity(cert_pem: &str, key_pem: &str) -> (r: Result<Identity, String>)
    ensures
        identity_content(r) == identity_view(
            pem_certificates(cert_pem@),
            pem_first_key(key_pem@),
        ),
{
    assemble_identity(read_certs(cert_pem), read_first_key(key_pem))
}

/// Generate a self-signed TLS certificate for this peer, made out to the name that clients expect
/// of every peer. It fails only where the key or the signature cannot be made. It remains stable across restarts, which
/// enables pinning it: what is loaded from its files is the identity itself.
pub fn create_identity() -> (r: Result<NewIdentity, String>)
    ensures
        r matches Ok(new) ==> {
            &&& new.identity.certs@.len() == 1
            &&& issued(
                new.identity.certs@[0]@,
                seq![SERVER_NAME@],
                COMMON_NAME@,
                new.identity.key@,
            )
            &&& identity_view(pem_certificates(new.cert_pem@), pem_first_key(new.key_pem@)) == Ok::<
                (Seq<Seq<u8>>, Seq<u8>),
                Seq<char>,
            >((byte_views(new.identity.certs@), new.identity.key@))
        },
{
    let mut names: Vec<String> = Vec::new();
    names.push(SERVER_NAME.to_string());
    assert(text::views(names@) =~= seq![SERVER_NAME@]);
    proof {
        reveal_strlit("shareflow.local");
        reveal_strlit("ShareFlow Peer");
    }
    self_signed(names, COMMON_NAME)
}

/// Bytes in upper-case hexadecimal, with colons in between.
pub open spec fn colon_hex(bytes: Seq<u8>) -> Seq<char>
    decreases bytes.len(),
{
    if bytes.len() == 0 {
        Seq::empty()
    } else if bytes.len() == 1 {
        text::hex_byte(bytes[0])
    } else {
        colon_hex(bytes.drop_last()) + seq![':'] + text::hex_byte(bytes.last())
    }
}

/// The text of a digest: its bytes in upper-case hexadecimal, with colons in between.
pub fn format_digest(digest: &[u8]) -> (r: String)
    ensures
        r@ == colon_hex(digest@),
{
    let mut s = String::new();
    let mut i: usize = 0;
    assert(digest@.take(0) =~= Seq::empty());
    while i < digest.len()
        invariant
            i <= digest.len(),
            s@ == colon_hex(digest@.take(i as int)),
        decreases digest.len() - i,
    {
        assert(digest@.take(i + 1).drop_last() =~= digest@.take(i as int));
        if i > 0 {
            s.push(':');
        }
        let ghost before = s@;
        push_hex_byte(&mut s, digest[i]);
        proof {
            if i == 0 {
                assert(before + text::hex_byte(digest@[0]) =~= text::hex_byte(digest@[0]));
            } else {
                assert(before =~= colon_hex(digest@.take(i as int)) + seq![':']);
            }
        }
        i += 1;
    }
    assert(digest@.take(i as int) =~= digest@);
    s
}

/// The fingerprint of a certificate.
pub open spec fn fingerprint(cert_der: Seq<u8>) -> Seq<char> {
    colon_hex(sha256(cert_der))
}

/// Compute SHA-256 fingerprint of a DER-encoded certificate.
pub fn cert_fingerprint(cert_der: &[u8]) -> (r: String)
    ensures
        r@ == fingerprint(cert_der@),
        r@.len() == 95,
{
    let digest = sha256_digest(cert_der);
    proof {
        lemma_colon_hex_len(digest@);
    }
    format_digest(digest.as_slice())
}

/// Whether a certificate of that fingerprint is accepted: it is pinned, or nothing is yet.
pub open spec fn accepted(pins: Seq<Seq<char>>, fp: Seq<char>) -> bool {
    pins.len() == 0 || pins.contains(fp)
}

/// Check a fingerprint against the pinned ones. If there are none (first connection), any is
/// accepted.
pub fn check_fingerprint(trusted_fingerprints: &Vec<String>, fp: &String) -> (r: Result<(), String>)
    ensures
        r is Ok <==> accepted(text::views(trusted_fingerprints@), fp@),
        r matches Err(e) ==> e@ == "Certificate fingerprint "@ + fp@
            + " not in trusted peers list"@,
{
    if trusted_fingerprints.len() == 0 {
        return Ok(());
    }
    let ghost pins = text::views(trusted_fingerprints@);
    let mut i: usize = 0;
    while i < trusted_fingerprints.len()
        invariant
            i <= trusted_fingerprints.len(),
            pins == text::views(trusted_fingerprints@),
            forall|j: int| 0 <= j < i ==> #[trigger] pins[j] != fp@,
        decreases trusted_fingerprints.len() - i,
    {
        if trusted_fingerprints[i] == *fp {
            assert(pins[i as int] == fp@);
            return Ok(());
        }
        i += 1;
    }
    let mut error = "Certificate fingerprint ".to_string();
    error.append(fp.as_str());
    error.append(" not in trusted peers list");
    Err(error)
}

/// Check a server's certificate against the pinned fingerprints. If there are none (first
/// connection), any is accepted.
pub fn verify_server_cert(trusted_fingerprints: &Vec<String>, cert_der: &[u8]) -> (r: Result<
    (),
    String,
>)
    ensures
        r is Ok <==> accepted(text::views(trusted_fingerprints@), fingerprint(cert_der@)),
        r matches Err(e) ==> e@ == "Certificate fingerprint "@ + fingerprint(cert_der@)
            + " not in trusted peers list"@,
{
    check_fingerprint(trusted_fingerprints, &cert_fingerprint(cert_der))
}

proof fn lemma_colon_hex_len(bytes: Seq<u8>)
    ensures
        bytes.len() > 0 ==> colon_hex(bytes).len() == 3 * bytes.len() - 1,
    decreases bytes.len(),
{
    if bytes.len() > 1 {
        lemma_colon_hex_len(bytes.drop_last());
    }
}

/// The text of a byte says what the byte is.
proof fn lemma_hex_byte_is_exact(x: u8, y: u8)
    requires
        text::hex_byte(x) == text::hex_byte(y),
    ensures
        x == y,
{
    let (s, t) = (text::hex_byte(x), text::hex_byte(y));
    assert(s[0] == t[0] && s[1] == t[1]);
    assert(s[0] == text::digit(x as int / 16) && t[0] == text::digit(y as int / 16));
    assert(s[1] == text::digit(x as int % 16) && t[1] == text::digit(y as int % 16));
    lemma_digit_is_exact(x as int / 16, y as int / 16);
    lemma_digit_is_exact(x as int % 16, y as int % 16);
}

proof fn lemma_digit_is_exact(m: int, n: int)
    requires
        0 <= m < 16,
        0 <= n < 16,
        text::digit(m) == text::digit(n),
    ensures
        m == n,
{
}

/// The last byte ends the text of bytes, after a colon and the text of the others.
proof fn lemma_colon_hex_parts(bytes: Seq<u8>)
    requires
        bytes.len() > 0,
    ensures
        ({
            let s = colon_hex(bytes);
            let n = s.len() as int;
            &&& n == 3 * bytes.len() - 1
            &&& s.skip(n - 2) == text::hex_byte(bytes.last())
            &&& bytes.len() > 1 ==> s.take(n - 3) == colon_hex(bytes.drop_last())
        }),
{
    lemma_colon_hex_len(bytes);
    let s = colon_hex(bytes);
    let n = s.len() as int;
    if bytes.len() > 1 {
        let front = colon_hex(bytes.drop_last());
        assert(s == front + seq![':'] + text::hex_byte(bytes.last()));
        assert(s.take(n - 3) =~= front);
    }
    assert(s.skip(n - 2) =~= text::hex_byte(bytes.last()));
}

/// Different digests of one length have different texts: a fingerprint says what the digest is.
#[verifier::spinoff_prover]
pub proof fn lemma_fingerprint_is_exact(x: Seq<u8>, y: Seq<u8>)
    requires
        x.len() == y.len(),
        colon_hex(x) == colon_hex(y),
    ensures
        x == y,
    decreases x.len(),
{
    if x.len() > 0 {
        lemma_colon_hex_parts(x);
        lemma_colon_hex_parts(y);
        lemma_hex_byte_is_exact(x.last(), y.last());
        if x.len() > 1 {
            lemma_fingerprint_is_exact(x.drop_last(), y.drop_last());
        } else {
            assert(x.drop_last() =~= y.drop_last());
        }
        assert(x =~= x.drop_last().push(x.last()));
        assert(y =~= y.drop_last().push(y.last()));
    } else {
        assert(x =~= y);
    }
}

/// Trust on first use: while nothing is pinned any certificate is accepted. Once the certificate of
/// the first peer is pinned, a certificate is accepted exactly if it has that fingerprint.
pub proof fn lemma_trust_on_first_use(
    before: AppConfig,
    after: AppConfig,
    fp: Seq<char>,
    other: Seq<char>,
)
    requires
        before.trusted_peers@.len() == 0,
        after.trusted_peers@.len() == 1,
        after.trusted_peers@[0].cert_fingerprint@ == fp,
    ensures
        accepted(before.pins(), fp),
        accepted(after.pins(), other) <==> other == fp,
{
    assert(after.pins() =~= seq![fp]);
    assert(after.pins()[0] == fp);
}

/// Bytes are written in their order, each as two hexadecimal digits in upper case, with one colon
/// between two of them and none at the ends.
pub proof fn lemma_hex_layout(bytes: Seq<u8>, i: int, high: int, low: int)
    requires
        0 <= i < bytes.len(),
        bytes[i] == 16 * high + low,
        0 <= high < 16,
        0 <= low < 16,
    ensures
        ({
            let s = colon_hex(bytes);
            &&& s.len() == 3 * bytes.len() - 1
            &&& high < 10 ==> s[3 * i] as int == '0' as int + high
            &&& high >= 10 ==> s[3 * i] as int == 'A' as int + high - 10
            &&& low < 10 ==> s[3 * i + 1] as int == '0' as int + low
            &&& low >= 10 ==> s[3 * i + 1] as int == 'A' as int + low - 10
            &&& i + 1 < bytes.len() ==> s[3 * i + 2] == ':'
        }),
    decreases bytes.len(),
{
    lemma_colon_hex_len(bytes);
    if bytes.len() > 1 {
        let front = bytes.drop_last();
        lemma_colon_hex_len(front);
        if i < front.len() {
            lemma_hex_layout(front, i, high, low);
        } else {
            text::lemma_hex(bytes[i], high, low);
        }
    } else {
        text::lemma_hex(bytes[i], high, low);
    }
}

/// Before anything is pinned any certificate is accepted, and afterwards only a pinned one is.
pub proof fn lemma_pinned_only(pins: Seq<Seq<char>>, fp: Seq<char>)
    ensures
        pins.len() == 0 ==> accepted(pins, fp),
        pins.len() > 0 ==> (accepted(pins, fp) <==> exists|i: int|
            0 <= i < pins.len() && #[trigger] pins[i] == fp),
{
}

/// An identity is made of all certificates of one file and the first key of the other. What is wrong
/// with the certificates is told first, then that there is no key, then what is wrong with it.
pub proof fn lemma_identity(
    certs: Result<Seq<Seq<u8>>, Seq<char>>,
    key: Option<Result<Seq<u8>, Seq<char>>>,
)
    ensures
        certs matches Err(e) ==> identity_view(certs, key) == Err::<(Seq<Seq<u8>>, Seq<u8>), Seq<char>>(
            e,
        ),
        certs is Ok && key is None ==> identity_view(certs, key) == Err::<
            (Seq<Seq<u8>>, Seq<u8>),
            Seq<char>,
        >("No private key found"@),
        certs is Ok && key is Some && key->0 is Err ==> identity_view(certs, key) == Err::<
            (Seq<Seq<u8>>, Seq<u8>),
            Seq<char>,
        >(key->0->Err_0),
        certs is Ok && key is Some && key->0 is Ok ==> identity_view(certs, key) == Ok::<
            (Seq<Seq<u8>>, Seq<u8>),
            Seq<char>,
        >((certs->Ok_0, key->0->Ok_0)),
{
}

/// Clients expect the name that certificates are made out to.
pub proof fn lemma_server_name()
    ensures
        SERVER_NAME@ == "shareflow.local"@,
        COMMON_NAME@ == "ShareFlow Peer"@,
{
}

/// Certificates have the same fingerprint exactly if they have the same digest.
pub proof fn lemma_fingerprints_tell_apart(a: Seq<u8>, b: Seq<u8>)
    requires
        sha256(a).len() == 32,
        sha256(b).len() == 32,
    ensures
        fingerprint(a) == fingerprint(b) <==> sha256(a) == sha256(b),
{
    if fingerprint(a) == fingerprint(b) {
        lemma_fingerprint_is_exact(sha256(a), sha256(b));
    }
}

} // verus!
