use vstd::prelude::*;
use vstd::string::StringExecFns;
use vstd::string::StringSliceAdditionalSpecFns;

verus! {

/// The failure of reading a locally persisted item: the stored value does
/// not have the shape the item requires.
#[derive(Debug)]
pub enum CliStateError {
    Invalid(String),
}

/// A decoded credential as the identity collaborator hands it over: the
/// raw bytes of its encoding; their internal structure is the
/// collaborator's.
pub struct Credential {
    pub data: Vec<u8>,
}

/// A model of a cryptographic identity: the bytes of its change history.
/// Verifying the history is the identity collaborator's work; here two
/// identities compare equal exactly when their histories match.
pub struct Identity {
    pub history: Vec<u8>,
}

/// The outcome of comparing two identities' change histories.
#[derive(Debug, PartialEq, Eq, Structural)]
pub enum IdentityHistoryComparison {
    Equal,
    Conflict,
}

impl Identity {
    pub fn compare(&self, other: &Identity) -> (r: IdentityHistoryComparison)
        ensures
            r == IdentityHistoryComparison::Equal <==> self.history@ == other.history@,
    {
        if self.history.len() != other.history.len() {
            return IdentityHistoryComparison::Conflict;
        }
        let mut i: usize = 0;
        while i < self.history.len()
            invariant
                i <= self.history@.len(),
                self.history@.len() == other.history@.len(),
                forall|k: int| 0 <= k < i ==> self.history@[k] == other.history@[k],
            decreases self.history@.len() - i,
        {
            if self.history[i] != other.history[i] {
                return IdentityHistoryComparison::Conflict;
            }
            i += 1;
        }
        proof {
            assert(self.history@ =~= other.history@);
        }
        IdentityHistoryComparison::Equal
    }
}

/// Whether `b` is an ASCII hex digit.
pub open spec fn is_hex_digit(b: u8) -> bool {
    (48 <= b <= 57) || (97 <= b <= 102) || (65 <= b <= 70)
}

/// The value of one hex digit.
pub open spec fn hex_val(b: u8) -> u8 {
    if 48 <= b <= 57 {
        (b - 48) as u8
    } else if 97 <= b <= 102 {
        (b - 97 + 10) as u8
    } else if 65 <= b <= 70 {
        (b - 65 + 10) as u8
    } else {
        0
    }
}

/// A byte string is decodable hex when its length is even and every byte
/// is a hex digit.
pub open spec fn spec_hex_valid(s: Seq<u8>) -> bool {
    s.len() % 2 == 0 && (forall|i: int| 0 <= i < s.len() ==> is_hex_digit(#[trigger] s[i]))
}

/// The bytes a hex string decodes to: two digits to a byte, high first.
pub open spec fn spec_hex_decode(s: Seq<u8>) -> Seq<u8> {
    Seq::new((s.len() / 2) as nat, |i: int| (hex_val(s[2 * i]) * 16 + hex_val(s[2 * i + 1])) as u8)
}

/// Relies on hex::decode: `Ok` exactly on input of even byte length whose
/// bytes are all hex digits, each digit pair decoded to one byte, high
/// digit first; every failure is folded to `None`.
#[verifier::external_body]
fn hex_decode(s: &str) -> (r: Option<Vec<u8>>)
    ensures
        r is Some <==> spec_hex_valid(s.spec_bytes()),
        r matches Some(v) ==> v@ == spec_hex_decode(s.spec_bytes()),
{
    match hex::decode(s) {
        Ok(v) => Some(v),
        Err(_) => None,
    }
}

/// The persisted form of a credential: the identity that issued it and the
/// hex encoding of its bytes.
pub struct CredentialConfig {
    pub issuer: Identity,
    pub encoded_credential: String,
}

impl CredentialConfig {
    pub fn new(issuer: Identity, encoded_credential: String) -> (r: Result<
        CredentialConfig,
        CliStateError,
    >)
        ensures
            r matches Ok(c) && c.issuer == issuer && c.encoded_credential == encoded_credential,
    {
        Ok(CredentialConfig { issuer, encoded_credential })
    }

    /// Decode the stored credential: its bytes exactly when the stored
    /// string is valid hex, and `Invalid` otherwise.
    pub fn credential(&self) -> (r: Result<Credential, CliStateError>)
        ensures
            r is Ok <==> spec_hex_valid(vstd::utf8::encode_utf8(self.encoded_credential@)),
            r matches Ok(c) ==> c.data@ == spec_hex_decode(
                vstd::utf8::encode_utf8(self.encoded_credential@),
            ),
    {
        match hex_decode(self.encoded_credential.as_str()) {
            Some(bytes) => Ok(Credential { data: bytes }),
            None => Err(
                CliStateError::Invalid(String::from_str("unable to hex decode credential")),
            ),
        }
    }
}

impl PartialEq for CredentialConfig {
    fn eq(&self, other: &Self) -> (r: bool) {
        self.encoded_credential == other.encoded_credential && matches!(
            self.issuer.compare(&other.issuer),
            IdentityHistoryComparison::Equal
        )
    }
}

impl vstd::std_specs::cmp::PartialEqSpecImpl for CredentialConfig {
    open spec fn obeys_eq_spec() -> bool {
        true
    }

    open spec fn eq_spec(&self, other: &Self) -> bool {
        self.encoded_credential@ == other.encoded_credential@ && self.issuer.history@
            == other.issuer.history@
    }
}

impl Eq for CredentialConfig {
}

/// The suffix of `s` after the last occurrence of `b`; all of `s` when `b`
/// does not occur.
pub open spec fn after_last(s: Seq<u8>, b: u8) -> Seq<u8>
    decreases s.len(),
{
    if s.len() == 0 {
        s
    } else if s.last() == b {
        Seq::empty()
    } else {
        after_last(s.drop_last(), b).push(s.last())
    }
}

/// The prefix of `s` before the last occurrence of `b`; all of `s` when
/// `b` does not occur.
pub open spec fn before_last(s: Seq<u8>, b: u8) -> Seq<u8>
    decreases s.len(),
{
    if s.len() == 0 {
        s
    } else if s.last() == b {
        s.drop_last()
    } else {
        before_last(s.drop_last(), b)
    }
}

proof fn lemma_after_last_at(s: Seq<u8>, b: u8, k: int)
    requires
        0 <= k < s.len(),
        s[k] == b,
        forall|j: int| k < j < s.len() ==> s[j] != b,
    ensures
        after_last(s, b) == s.subrange(k + 1, s.len() as int),
    decreases s.len(),
{
    if k == s.len() - 1 {
        assert(after_last(s, b) =~= s.subrange(k + 1, s.len() as int));
    } else {
        lemma_after_last_at(s.drop_last(), b, k);
        assert(after_last(s, b) =~= s.subrange(k + 1, s.len() as int)) by {
            assert(s.drop_last().subrange(k + 1, s.drop_last().len() as int) =~= s.subrange(
                k + 1,
                s.len() - 1,
            ));
            assert(after_last(s, b) == s.subrange(k + 1, s.len() - 1).push(s.last()));
        };
    }
}

proof fn lemma_after_last_none(s: Seq<u8>, b: u8)
    requires
        forall|j: int| 0 <= j < s.len() ==> s[j] != b,
    ensures
        after_last(s, b) == s,
    decreases s.len(),
{
    if s.len() > 0 {
        lemma_after_last_none(s.drop_last(), b);
        assert(after_last(s, b) =~= s);
    }
}

proof fn lemma_before_last_at(s: Seq<u8>, b: u8, k: int)
    requires
        0 <= k < s.len(),
        s[k] == b,
        forall|j: int| k < j < s.len() ==> s[j] != b,
    ensures
        before_last(s, b) == s.subrange(0, k),
    decreases s.len(),
{
    if k == s.len() - 1 {
        assert(before_last(s, b) =~= s.subrange(0, k));
    } else {
        lemma_before_last_at(s.drop_last(), b, k);
        assert(s.drop_last().subrange(0, k) =~= s.subrange(0, k));
    }
}

/// Find the last occurrence of `b`.
fn find_last(s: &Vec<u8>, b: u8) -> (r: Option<usize>)
    ensures
        match r {
            Some(k) => k < s@.len() && s@[k as int] == b && (forall|j: int|
                k < j < s@.len() ==> s@[j] != b),
            None => forall|j: int| 0 <= j < s@.len() ==> s@[j] != b,
        },
{
    let mut i: usize = s.len();
    while i > 0
        invariant
            i <= s@.len(),
            forall|j: int| i <= j < s@.len() ==> s@[j] != b,
        decreases i,
    {
        i -= 1;
        if s[i] == b {
            return Some(i);
        }
    }
    None
}

/// Copy `s[from..to]`.
fn bytes_range(s: &Vec<u8>, from: usize, to: usize) -> (r: Vec<u8>)
    requires
        from <= to <= s@.len(),
    ensures
        r@ == s@.subrange(from as int, to as int),
{
    let mut out: Vec<u8> = Vec::new();
    let mut i: usize = from;
    while i < to
        invariant
            from <= i <= to,
            out@ == s@.subrange(from as int, i as int),
        decreases to - i,
    {
        out.push(s[i]);
        proof {
            assert(out@ =~= s@.subrange(from as int, i + 1 as int));
        }
        i += 1;
    }
    out
}

/// The file name of a byte path: what follows its last separator.
pub open spec fn spec_file_name(p: Seq<u8>) -> Seq<u8> {
    after_last(p, 47)
}

/// The stem of a byte path: its file name up to the last dot, when a dot
/// stands after the name's first byte; the whole name otherwise.
pub open spec fn spec_file_stem(p: Seq<u8>) -> Seq<u8> {
    let name = spec_file_name(p);
    if exists|i: int| 0 < i < name.len() && name[i] == 46 {
        before_last(name, 46)
    } else {
        name
    }
}

/// The name a path stores its item under: the stem of its file name.
/// Fails exactly when that stem is empty.
pub fn file_stem(path: &Vec<u8>) -> (r: Result<Vec<u8>, CliStateError>)
    ensures
        r is Ok <==> spec_file_stem(path@).len() > 0,
        r matches Ok(v) ==> v@ == spec_file_stem(path@),
{
    let n = path.len();
    let name = match find_last(path, 47) {
        Some(k) => {
            proof {
                lemma_after_last_at(path@, 47, k as int);
            }
            bytes_range(path, k + 1, n)
        },
        None => {
            proof {
                lemma_after_last_none(path@, 47);
            }
            bytes_range(path, 0, n)
        },
    };
    proof {
        assert(path@.subrange(0, path@.len() as int) =~= path@);
        assert(name@ == spec_file_name(path@));
    }
    let stem = match find_last(&name, 46) {
        Some(k) if k > 0 => {
            proof {
                lemma_before_last_at(name@, 46, k as int);
            }
            bytes_range(&name, 0, k)
        },
        _ => {
            proof {
                if exists|i: int| 0 < i < name@.len() && name@[i] == 46 {
                    let i = choose|i: int| 0 < i < name@.len() && name@[i] == 46;
                }
                assert(name@.subrange(0, name@.len() as int) =~= name@);
            }
            bytes_range(&name, 0, name.len())
        },
    };
    if stem.len() == 0 {
        Err(CliStateError::Invalid(String::from_str("path has no file stem")))
    } else {
        Ok(stem)
    }
}

/// Append a copy of `src` to `out`.
fn append_bytes(out: &mut Vec<u8>, src: &Vec<u8>)
    ensures
        final(out)@ == old(out)@ + src@,
{
    let ghost base = out@;
    let mut i: usize = 0;
    while i < src.len()
        invariant
            i <= src@.len(),
            out@ == base + src@.subrange(0, i as int),
        decreases src@.len() - i,
    {
        out.push(src[i]);
        proof {
            assert(out@ =~= base + src@.subrange(0, i + 1 as int));
        }
        i += 1;
    }
    proof {
        assert(out@ =~= base + src@);
    }
}

/// The byte path of the directory the credential items live under.
pub open spec fn spec_credentials_dir(root: Seq<u8>) -> Seq<u8> {
    root + seq![47u8, 99u8, 114u8, 101u8, 100u8, 101u8, 110u8, 116u8, 105u8, 97u8, 108u8, 115u8]
}

/// The byte path of the directory the project items live under.
pub open spec fn spec_projects_dir(root: Seq<u8>) -> Seq<u8> {
    root + seq![47u8, 112u8, 114u8, 111u8, 106u8, 101u8, 99u8, 116u8, 115u8]
}

/// The directory that holds the locally persisted credentials, one file
/// per item; reading and writing the files is the state store's work.
pub struct CredentialsState {
    pub dir: Vec<u8>,
}

impl CredentialsState {
    pub fn new(dir: Vec<u8>) -> (r: CredentialsState)
        ensures
            r.dir == dir,
    {
        CredentialsState { dir }
    }

    pub fn default_filename() -> (r: &'static str)
        ensures
            r@ == "credential"@,
    {
        "credential"
    }

    /// The directory of this kind of item under the state root.
    pub fn build_dir(root_path: &Vec<u8>) -> (r: Vec<u8>)
        ensures
            r@ == spec_credentials_dir(root_path@),
    {
        let mut out: Vec<u8> = Vec::new();
        append_bytes(&mut out, root_path);
        let mut suffix: Vec<u8> = Vec::new();
        suffix.push(47);
        suffix.push(99);
        suffix.push(114);
        suffix.push(101);
        suffix.push(100);
        suffix.push(101);
        suffix.push(110);
        suffix.push(116);
        suffix.push(105);
        suffix.push(97);
        suffix.push(108);
        suffix.push(115);
        append_bytes(&mut out, &suffix);
        proof {
            assert(out@ =~= spec_credentials_dir(root_path@));
        }
        out
    }

    pub fn has_data_dir() -> (r: bool)
        ensures
            r == false,
    {
        false
    }

    pub fn dir(&self) -> (r: &Vec<u8>)
        ensures
            r == &self.dir,
    {
        &self.dir
    }
}

/// One persisted credential: the name its file stores it under, the file's
/// path, and the persisted configuration. The store serializes the
/// configuration to the file; this type owns the naming rule.
pub struct CredentialState {
    pub name: Vec<u8>,
    pub path: Vec<u8>,
    pub config: CredentialConfig,
}

impl CredentialState {
    /// Make the item that a write of `config` to `path` persists: its name
    /// is the path's stem. Fails exactly when the path has no stem.
    pub fn new(path: Vec<u8>, config: CredentialConfig) -> (r: Result<
        CredentialState,
        CliStateError,
    >)
        ensures
            r is Ok <==> spec_file_stem(path@).len() > 0,
            r matches Ok(st) ==> st.name@ == spec_file_stem(path@) && st.path == path && st.config
                == config,
    {
        let name = file_stem(&path)?;
        Ok(CredentialState { name, path, config })
    }

    /// The item a read of `path` yields, once the store has read and
    /// decoded `config` from the file.
    pub fn load(path: Vec<u8>, config: CredentialConfig) -> (r: Result<
        CredentialState,
        CliStateError,
    >)
        ensures
            r is Ok <==> spec_file_stem(path@).len() > 0,
            r matches Ok(st) ==> st.name@ == spec_file_stem(path@) && st.path == path && st.config
                == config,
    {
        CredentialState::new(path, config)
    }

    pub fn name(&self) -> (r: &Vec<u8>)
        ensures
            r == &self.name,
    {
        &self.name
    }

    pub fn path(&self) -> (r: &Vec<u8>)
        ensures
            r == &self.path,
    {
        &self.path
    }

    pub fn config(&self) -> (r: &CredentialConfig)
        ensures
            r == &self.config,
    {
        &self.config
    }
}

/// The directory that holds the locally persisted projects.
pub struct ProjectsState {
    pub dir: Vec<u8>,
}

impl ProjectsState {
    pub fn new(dir: Vec<u8>) -> (r: ProjectsState)
        ensures
            r.dir == dir,
    {
        ProjectsState { dir }
    }

    pub fn default_filename() -> (r: &'static str)
        ensures
            r@ == "project"@,
    {
        "project"
    }

    /// The directory of this kind of item under the state root.
    pub fn build_dir(root_path: &Vec<u8>) -> (r: Vec<u8>)
        ensures
            r@ == spec_projects_dir(root_path@),
    {
        let mut out: Vec<u8> = Vec::new();
        append_bytes(&mut out, root_path);
        let mut suffix: Vec<u8> = Vec::new();
        suffix.push(47);
        suffix.push(112);
        suffix.push(114);
        suffix.push(111);
        suffix.push(106);
        suffix.push(101);
        suffix.push(99);
        suffix.push(116);
        suffix.push(115);
        append_bytes(&mut out, &suffix);
        proof {
            assert(out@ =~= spec_projects_dir(root_path@));
        }
        out
    }

    pub fn has_data_dir() -> (r: bool)
        ensures
            r == false,
    {
        false
    }

    pub fn dir(&self) -> (r: &Vec<u8>)
        ensures
            r == &self.dir,
    {
        &self.dir
    }
}

/// One persisted project: the name its file stores it under and the file's
/// path; the project's configuration lives with the cloud collaborator.
pub struct ProjectState {
    pub name: Vec<u8>,
    pub path: Vec<u8>,
}

impl ProjectState {
    /// Make the item that a write to `path` persists: its name is the
    /// path's stem. Fails exactly when the path has no stem.
    pub fn new(path: Vec<u8>) -> (r: Result<ProjectState, CliStateError>)
        ensures
            r is Ok <==> spec_file_stem(path@).len() > 0,
            r matches Ok(st) ==> st.name@ == spec_file_stem(path@) && st.path == path,
    {
        let name = file_stem(&path)?;
        Ok(ProjectState { name, path })
    }

    /// The item a read of `path` yields.
    pub fn load(path: Vec<u8>) -> (r: Result<ProjectState, CliStateError>)
        ensures
            r is Ok <==> spec_file_stem(path@).len() > 0,
            r matches Ok(st) ==> st.name@ == spec_file_stem(path@) && st.path == path,
    {
        ProjectState::new(path)
    }

    pub fn name(&self) -> (r: &Vec<u8>)
        ensures
            r == &self.name,
    {
        &self.name
    }

    pub fn path(&self) -> (r: &Vec<u8>)
        ensures
            r == &self.path,
    {
        &self.path
    }
}

} // verus!
