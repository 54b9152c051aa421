//! Configuration model and setup helpers. The process boundary reads and
//! writes the actual files and asks the system for directories; what is
//! decided here — how paths are joined, what the defaults are, how the
//! password digest is taken — is pinned down by contracts.

use vstd::prelude::*;
use vstd::string::StringExecFns;

use blake2::Digest;

verus! {

/// Application configuration, constructed once at startup and passed into the
/// core by reference: no ambient global state.
pub struct Config {
    /// Port to listen on.
    pub port: u16,
    /// Database connection url.
    pub database_url: String,
    /// Database connection pool size.
    pub pool_size: u32,
    /// Directory where to store uploaded files.
    pub files_dir: String,
    /// Maximum allowed file size.
    pub max_filesize: usize,
    /// SSL certificate private key location.
    pub cert_privkey: String,
    /// SSL certificate chain location.
    pub cert_chain: String,
    /// Use SSL or not.
    pub use_ssl: bool,
}

fn joined(base: &str, rest: &str) -> (r: String)
    ensures
        r@ == base@ + rest@,
{
    let mut r = String::from_str(base);
    r.append(rest);
    r
}

/// Returns the path of the configuration file under the given configuration
/// directory.
pub fn get_config_path(config_dir: &str) -> (r: String)
    ensures
        r@ == config_dir@ + "/config.toml"@,
{
    joined(config_dir, "/config.toml")
}

/// Returns the path of the bearer token hash under the given configuration
/// directory.
pub fn get_password_path(config_dir: &str) -> (r: String)
    ensures
        r@ == config_dir@ + "/passwd"@,
{
    joined(config_dir, "/passwd")
}

/// Where uploaded files live: an absolute `files_dir` is taken as is, a
/// relative one is placed under the data directory.
pub fn resolve_files_dir(files_dir: &str, data_dir: &str) -> (r: String)
    ensures
        files_dir@.len() > 0 && files_dir@[0] == '/' ==> r@ == files_dir@,
        !(files_dir@.len() > 0 && files_dir@[0] == '/') ==> r@ == data_dir@ + "/"@ + files_dir@,
{
    let n = files_dir.unicode_len();
    if n > 0 && files_dir.get_char(0) == '/' {
        files_dir.to_owned()
    } else {
        let mut r = String::from_str(data_dir);
        r.append("/");
        r.append(files_dir);
        r
    }
}

impl Config {
    /// The default configuration for a given data directory and processor
    /// count: half the processors (at least one) drive the connection pool.
    pub fn defaults(data_dir: &str, cpus: u32) -> (c: Config)
        ensures
            c.port == 8080,
            c.database_url@ == data_dir@ + "/database.db"@,
            c.pool_size == if cpus / 2 >= 1 {
                cpus / 2
            } else {
                1u32
            },
            c.files_dir@ == data_dir@ + "/files"@,
            c.max_filesize == 10_000_000,
            c.cert_privkey@ == "cert.pem"@,
            c.cert_chain@ == "chain.pem"@,
            !c.use_ssl,
    {
        let half = cpus / 2;
        Config {
            port: 8080,
            database_url: joined(data_dir, "/database.db"),
            pool_size: if half >= 1 {
                half
            } else {
                1
            },
            files_dir: joined(data_dir, "/files"),
            max_filesize: 10_000_000,
            cert_privkey: "cert.pem".to_owned(),
            cert_chain: "chain.pem".to_owned(),
            use_ssl: false,
        }
    }
}

/// The BLAKE2b-512 digest of the input; 64 bytes, a function of the input
/// alone.
pub uninterp spec fn blake2b_of(input: Seq<u8>) -> Seq<u8>;

/// Returns the BLAKE2b digest of the input.
///
/// Relies on blake2's `Blake2b512` through the `Digest` trait: a pure
/// function of the input bytes with a 64-byte output.
#[verifier::external_body]
pub fn hash(input: &[u8]) -> (r: Vec<u8>)
    ensures
        r@ == blake2b_of(input@),
        r@.len() == 64,
{
    let mut hasher = blake2::Blake2b512::new();
    hasher.update(input);
    hasher.finalize().to_vec()
}

} // verus!
