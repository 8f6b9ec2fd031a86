//! Remote stores reached through OpenDAL: how paths are written for them and the decisions
//! taken before a request is sent.
use crate::config::{new_backend_id, DataMode, RemoteConfig};
use crate::layered::{
    add_concurrent_limit, add_logging, add_throttle, build_operator, clone_layered,
    LayeredOperator,
};
use crate::meta::{Metadata, Timestamp};
use crate::operator::{DataError, DataInner, Removal};
use crate::services::{kind_of, settings_of};
use crate::text::{chars_of, string_of};
use vstd::prelude::*;

verus! {

/// The error type of OpenDAL, carried through unread.
#[verifier::external_type_specification]
#[verifier::external_body]
pub struct ExOpendalError(opendal::Error);

/// An OpenDAL operator, carried through unread.
#[verifier::external_type_specification]
#[verifier::external_body]
pub struct ExOpendalOperator(opendal::Operator);


/// `s` with a `/` in front unless it already starts with one.
pub open spec fn with_leading_slash(s: Seq<char>) -> Seq<char> {
    if s.len() > 0 && s[0] == '/' {
        s
    } else {
        seq!['/'] + s
    }
}

/// A non-empty `s` made to end in `/` when it names a directory, and stripped of one
/// trailing `/` when it names a file.
pub open spec fn with_dir_mark(s: Seq<char>, is_dir: bool) -> Seq<char> {
    if is_dir && s.last() != '/' {
        s.push('/')
    } else if !is_dir && s.last() == '/' {
        s.drop_last()
    } else {
        s
    }
}

/// `s` with every `\` turned into `/`.
pub open spec fn forward_slashes(s: Seq<char>) -> Seq<char> {
    Seq::new(s.len(), |i: int| if s[i] == '\\' { '/' } else { s[i] })
}

/// How a remote service is asked for `p`: led by `/`, ending in `/` exactly when it is a
/// directory (a file loses one trailing `/`), with `\` written as `/`.
pub open spec fn remote_key(p: Seq<char>, is_dir: bool) -> Seq<char> {
    forward_slashes(with_dir_mark(with_leading_slash(p), is_dir))
}

/// Writes `p` the way a remote service is asked for it.
pub fn path_to_str(p: &str, is_dir: bool) -> (out: String)
    ensures
        out@ == remote_key(p@, is_dir),
{
    let src = chars_of(p);
    let mut r: Vec<char> = Vec::new();
    if !(src.len() > 0 && src[0] == '/') {
        r.push('/');
    }
    let ghost head = r@;
    let mut i: usize = 0;
    while i < src.len()
        invariant
            i <= src.len(),
            r@ == head + src@.take(i as int),
        decreases src.len() - i,
    {
        r.push(src[i]);
        i = i + 1;
        assert(r@ =~= head + src@.take(i as int));
    }
    assert(src@.take(src.len() as int) =~= src@);
    assert(r@ =~= with_leading_slash(p@));
    let n: usize = r.len();
    let ends = r[n - 1] == '/';
    if is_dir && !ends {
        r.push('/');
    } else if !is_dir && ends {
        r.pop();
    }
    assert(r@ =~= with_dir_mark(with_leading_slash(p@), is_dir));
    let ghost marked = r@;
    let mut out: Vec<char> = Vec::new();
    let mut k: usize = 0;
    while k < r.len()
        invariant
            k <= r.len(),
            r@ == marked,
            out@ == forward_slashes(marked).take(k as int),
        decreases r.len() - k,
    {
        let c = r[k];
        if c == '\\' {
            out.push('/');
        } else {
            out.push(c);
        }
        k = k + 1;
        assert(out@ =~= forward_slashes(marked).take(k as int));
    }
    assert(forward_slashes(marked).take(r.len() as int) =~= forward_slashes(marked));
    string_of(&out)
}

/// A remote key always starts with `/` and a directory's always ends with `/`; only the
/// key of a file at `""` or `"/"` is empty. No key holds a `\`.
pub proof fn remote_key_shape(p: Seq<char>, is_dir: bool)
    requires
        is_dir || !(p.len() == 0 || p == seq!['/']),
    ensures
        remote_key(p, is_dir).len() > 0,
        remote_key(p, is_dir)[0] == '/',
        is_dir ==> remote_key(p, is_dir).last() == '/',
        forall|i: int| 0 <= i < remote_key(p, is_dir).len() ==> remote_key(p, is_dir)[i] != '\\',
{
    let a = with_leading_slash(p);
    let b = with_dir_mark(a, is_dir);
    assert(a[0] == '/');
    if !is_dir && a.last() == '/' {
        if a.len() == 1 {
            if p.len() == 0 {
            } else {
                assert(p =~= seq!['/']);
            }
        }
        assert(a.len() >= 2);
    }
    assert(b.len() > 0);
    assert(b[0] == '/');
    if is_dir {
        assert(b.last() == '/');
    }
}

/// A remote key keeps the path's text: after the `/` put in front of a path that has none,
/// every character of the path stands at its place with only a backslash turned into `/`; at most
/// one `/` is added at the end or one taken off it.
pub proof fn remote_key_keeps_text(p: Seq<char>, is_dir: bool)
    ensures
        ({
            let off: int = if p.len() > 0 && p[0] == '/' { 0 } else { 1 };
            let k = remote_key(p, is_dir);
            &&& p.len() + off - 1 <= k.len() <= p.len() + off + 1
            &&& off == 1 && k.len() > 0 ==> k[0] == '/'
            &&& forall|i: int| 0 <= i < p.len() && i + off < k.len() ==> k[i + off] == (if #[trigger] p[i] == '\\' { '/' } else { p[i] })
            &&& forall|i: int| p.len() + off <= i < k.len() ==> k[i] == '/'
        }),
{
    let off: int = if p.len() > 0 && p[0] == '/' { 0 } else { 1 };
    let a = with_leading_slash(p);
    let b = with_dir_mark(a, is_dir);
    let k = remote_key(p, is_dir);
    assert(a.len() == p.len() + off);
    assert forall|i: int| 0 <= i < p.len() implies a[i + off] == p[i] by {
        if off == 1 {
            assert(a == seq!['/'] + p);
        }
    }
    assert forall|i: int| 0 <= i < a.len() && i < b.len() implies b[i] == a[i] by {}
    assert forall|i: int| a.len() <= i < b.len() implies b[i] == '/' by {}
    assert(k.len() == b.len());
    if off == 1 && k.len() > 0 {
        assert(a[0] == '/');
        assert(b[0] == a[0]);
    }
    assert forall|i: int| 0 <= i < p.len() && i + off < k.len() implies k[i + off] == (if #[trigger] p[i] == '\\' { '/' } else { p[i] }) by {
        assert(b[i + off] == a[i + off]);
    }
}

/// Asking again for a directory's key gives the same key.
pub proof fn remote_key_stable_for_dirs(p: Seq<char>)
    ensures
        remote_key(remote_key(p, true), true) == remote_key(p, true),
{
    remote_key_shape(p, true);
    let k = remote_key(p, true);
    assert(with_leading_slash(k) == k);
    assert(with_dir_mark(k, true) == k);
    assert(forward_slashes(k) =~= k);
}

/// A layer that an operator is wrapped in.
#[derive(Clone, Copy, Debug, PartialEq, Eq, Structural)]
pub enum LayerSpec {
    /// Throttle transfers to `bandwidth` bytes per second with bursts of `burst` bytes.
    Throttle { bandwidth: u32, burst: u32 },
    /// Allow at most this many operations at once.
    ConcurrentLimit(usize),
    /// Log every operation.
    Logging,
}

/// The layers a remote store is wrapped in, innermost first: the throttle where one is
/// set, then the limit on operations at once where one is set, and logging in any case.
pub open spec fn layers_for(config: RemoteConfig) -> Seq<LayerSpec> {
    (match config.bandwidth {
        Some(t) => seq![LayerSpec::Throttle { bandwidth: t.bandwidth, burst: t.burst }],
        None => Seq::empty(),
    }) + (match config.max_threads {
        Some(n) => seq![LayerSpec::ConcurrentLimit(n as usize)],
        None => Seq::empty(),
    }) + seq![LayerSpec::Logging]
}

/// Each setting adds its own layer, whatever the other one is: a set bandwidth puts the
/// throttle with that bandwidth and burst innermost, a set thread limit puts a limit of that
/// many operations next, logging always comes last, and nothing else is added.
pub proof fn layers_follow_settings(config: RemoteConfig)
    ensures
        layers_for(config).len() == (if config.bandwidth is Some { 1int } else { 0 }) + (if config.max_threads is Some { 1int } else { 0 }) + 1,
        layers_for(config).last() == LayerSpec::Logging,
        config.bandwidth matches Some(t) ==> layers_for(config)[0] == (LayerSpec::Throttle { bandwidth: t.bandwidth, burst: t.burst }),
        config.max_threads matches Some(n) ==> layers_for(config)[layers_for(config).len() - 2] == LayerSpec::ConcurrentLimit(n as usize),
        config.bandwidth is None ==> forall|i: int| 0 <= i < layers_for(config).len() ==> !(#[trigger] layers_for(config)[i] is Throttle),
        config.max_threads is None ==> forall|i: int| 0 <= i < layers_for(config).len() ==> !(#[trigger] layers_for(config)[i] is ConcurrentLimit),
{
    let l = layers_for(config);
    assert forall|i: int| 0 <= i < l.len() implies (config.bandwidth is None ==> !(#[trigger] l[i] is Throttle))
        && (config.max_threads is None ==> !(l[i] is ConcurrentLimit)) by {
        if config.bandwidth is None && config.max_threads is None {
            assert(l =~= seq![LayerSpec::Logging]);
        } else if config.bandwidth is None {
            assert(l =~= seq![LayerSpec::ConcurrentLimit(config.max_threads->Some_0 as usize), LayerSpec::Logging]);
        } else if config.max_threads is None {
            assert(l =~= seq![LayerSpec::Throttle { bandwidth: config.bandwidth->Some_0.bandwidth, burst: config.bandwidth->Some_0.burst }, LayerSpec::Logging]);
        }
    }
}

/// The layers a remote store with `config` is wrapped in.
pub fn layer_plan(config: &RemoteConfig) -> (plan: Vec<LayerSpec>)
    ensures
        plan@ == layers_for(*config),
{
    let mut plan: Vec<LayerSpec> = Vec::new();
    match config.bandwidth {
        Some(t) => plan.push(LayerSpec::Throttle { bandwidth: t.bandwidth, burst: t.burst }),
        None => {},
    }
    match config.max_threads {
        Some(n) => plan.push(LayerSpec::ConcurrentLimit(n as usize)),
        None => {},
    }
    plan.push(LayerSpec::Logging);
    assert(plan@ =~= layers_for(*config));
    plan
}

/// The requests that reach a remote store by a key.
#[derive(Clone, Copy, Debug, PartialEq, Eq, Structural)]
pub enum RemoteRequest {
    Stat,
    RemoveDir,
    RemoveFile,
    CreateDir,
    List,
    Write,
}

/// Whether a request names its entry as a directory.
pub open spec fn names_dir(req: RemoteRequest) -> bool {
    match req {
        RemoteRequest::RemoveDir | RemoteRequest::CreateDir | RemoteRequest::List => true,
        _ => false,
    }
}

/// A store reached through an OpenDAL operator.
pub struct OpenDALBackend {
    pub id: u128,
    /// The operator, with the record of what it was built from and wrapped in.
    pub operator: LayeredOperator,
    pub config: RemoteConfig,
}

impl Clone for OpenDALBackend {
    fn clone(&self) -> (res: Self)
        ensures
            res.id == self.id,
            res.config == self.config,
            res.operator.source() == self.operator.source(),
            res.operator.layers() == self.operator.layers(),
    {
        OpenDALBackend {
            id: self.id,
            operator: clone_layered(&self.operator),
            config: self.config.clone(),
        }
    }
}

impl OpenDALBackend {
    /// Opens the remote store that `config` describes: builds an operator for its service
    /// kind and options, wraps it in the layers of `layer_plan`, and gives the store a fresh
    /// random identity. The store fails to open exactly when the service's builder fails.
    pub fn new(config: RemoteConfig) -> (res: Result<OpenDALBackend, DataError>)
        requires
            config.bandwidth matches Some(t) ==> t.bandwidth > 0 && t.burst > 0,
        ensures
            res matches Ok(b) ==> b.config == config && b.operator.source() == (kind_of(config.src), settings_of(config.src))
                && b.operator.layers() == layers_for(config),
            res matches Err(e) ==> e is Remote,
    {
        let kind = config.src.scheme();
        let settings = config.src.clone().to_map();
        let built = build_operator(kind, settings);
        let id = new_backend_id();
        let res = OpenDALBackend::from_built(built, config, id);
        assert(Seq::<LayerSpec>::empty() + layers_for(config) =~= layers_for(config));
        res
    }

    /// The store under identity `id` that `config` describes, given the outcome of building
    /// its operator: a failed build is the service's error, and a built operator is wrapped
    /// in the layers of `layer_plan`, in their order.
    pub fn from_built(
        built: Result<LayeredOperator, opendal::Error>,
        config: RemoteConfig,
        id: u128,
    ) -> (res: Result<OpenDALBackend, DataError>)
        requires
            config.bandwidth matches Some(t) ==> t.bandwidth > 0 && t.burst > 0,
        ensures
            res is Ok <==> built is Ok,
            res matches Ok(b) ==> b.id == id && b.config == config && b.operator.source()
                == built->Ok_0.source() && b.operator.layers() == built->Ok_0.layers() + layers_for(config),
            res matches Err(e) ==> (built matches Err(x) && e == DataError::Remote(x)),
    {
        let mut op = match built {
            Ok(op) => op,
            Err(e) => {
                return Err(DataError::Remote(e));
            },
        };
        let ghost start = op.layers();
        let plan = layer_plan(&config);
        let mut i: usize = 0;
        while i < plan.len()
            invariant
                i <= plan.len(),
                plan@ == layers_for(config),
                op.source() == built->Ok_0.source(),
                start == built->Ok_0.layers(),
                op.layers() == start + plan@.take(i as int),
                config.bandwidth matches Some(t) ==> t.bandwidth > 0 && t.burst > 0,
            decreases plan.len() - i,
        {
            op = match plan[i] {
                LayerSpec::Throttle { bandwidth, burst } => add_throttle(op, bandwidth, burst),
                LayerSpec::ConcurrentLimit(n) => add_concurrent_limit(op, n),
                LayerSpec::Logging => add_logging(op),
            };
            i = i + 1;
            assert(start + plan@.take(i as int) =~= (start + plan@.take(i - 1)).push(plan@[i - 1]));
        }
        assert(plan@.take(plan.len() as int) =~= plan@);
        Ok(OpenDALBackend { id, operator: op, config })
    }

    /// The operator the store is reached through.
    pub fn operator(&self) -> (res: &opendal::Operator)
        ensures
            *res == self.operator.inner(),
    {
        self.operator.operator()
    }

    /// The path the store uses for `item`: remote paths are already absolute, so `item`
    /// itself.
    pub fn realpath(&self, item: &str) -> (res: String)
        ensures
            res@ == item@,
    {
        string_of(&chars_of(item))
    }

    /// The store as an operator's inner part: it can be read and written, but offers no
    /// random access.
    pub fn to_inner<R, W, F>(self, reader: R, writer: W) -> (res: DataInner<R, W, F>)
        ensures
            res.id == self.id,
            res.info == DataMode::Remote(self.config),
            res.reader == Some(reader),
            res.writer == Some(writer),
            res.full is None,
    {
        DataInner {
            id: self.id,
            info: DataMode::Remote(self.config),
            reader: Some(reader),
            writer: Some(writer),
            full: None,
        }
    }

    /// The metadata of an entry at `path` that the service describes: its kind, last
    /// modification time and length; the service tells no access or creation time.
    pub fn meta(path: &str, is_dir: bool, last_modified: Option<Timestamp>, content_length: u64) -> (res:
        Metadata)
        ensures
            res.path@ == path@,
            res.is_dir == is_dir,
            res.mtime == last_modified,
            res.atime is None,
            res.ctime is None,
            res.size == content_length,
    {
        Metadata::new(string_of(&chars_of(path)), is_dir, last_modified, None, None, content_length)
    }

    /// The key under which `req` asks the service for `item`.
    pub fn key_for(req: RemoteRequest, item: &str) -> (res: String)
        ensures
            res@ == remote_key(item@, names_dir(req)),
    {
        let dir = match req {
            RemoteRequest::RemoveDir | RemoteRequest::CreateDir | RemoteRequest::List => true,
            _ => false,
        };
        path_to_str(item, dir)
    }

    /// The key to write an empty file at, for setting the length of `item` to `size`: a
    /// remote store can only make an entry empty, any other length is `Unsupported`.
    pub fn length_key(item: &str, size: u64) -> (res: Result<String, DataError>)
        ensures
            size != 0 ==> res matches Err(DataError::Unsupported),
            size == 0 ==> (res matches Ok(k) && k@ == remote_key(item@, false)),
    {
        if size != 0 {
            Err(DataError::Unsupported)
        } else {
            Ok(path_to_str(item, false))
        }
    }

    /// The source and target keys for moving or copying `old` to `new`, given what a lookup
    /// of `old` found: both are written as directories exactly when `old` is one, and a
    /// missing `old` is `NotFound`.
    pub fn transfer_keys(old: &str, new: &str, found: &Option<Metadata>) -> (res: Result<
        (String, String),
        DataError,
    >)
        ensures
            match found {
                Some(m) => res matches Ok((a, b)) && a@ == remote_key(old@, m.is_dir) && b@
                    == remote_key(new@, m.is_dir),
                None => res matches Err(DataError::NotFound),
            },
    {
        match found {
            Some(m) => Ok((path_to_str(old, m.is_dir), path_to_str(new, m.is_dir))),
            None => Err(DataError::NotFound),
        }
    }
}

/// A listing of a remote directory.
pub struct OpenDALQuery {
    pub operator: opendal::Operator,
    /// The key of the listed directory.
    pub path: String,
    /// Whether the listing goes into subdirectories.
    pub recursive: bool,
    /// Whether the listed directory itself is reported.
    pub root: bool,
}

impl OpenDALQuery {
    /// A listing of the directory with key `path`.
    pub fn new(operator: opendal::Operator, path: String, recursive: bool, root: bool) -> (res: Self)
        ensures
            res.operator == operator,
            res.path == path,
            res.recursive == recursive,
            res.root == root,
    {
        OpenDALQuery { operator, path, recursive, root }
    }

    /// Whether an entry is reported: the listed directory itself only when `root` asks for
    /// it, every other entry always.
    pub fn admits(&self, meta: &Metadata) -> (res: bool)
        ensures
            res == (self.root || remote_key(meta.path@, meta.is_dir) != self.path@),
    {
        if self.root {
            return true;
        }
        let key = path_to_str(meta.path.as_str(), meta.is_dir);
        !(key == self.path)
    }
}

/// An entry of a remote store that can be opened, removed or renamed.
pub struct OpenDALHandle {
    pub operator: opendal::Operator,
    pub path: String,
    pub is_dir: bool,
}

impl OpenDALHandle {
    /// A handle on the entry at `path`.
    pub fn new(operator: opendal::Operator, path: &str, is_dir: bool) -> (res: Self)
        ensures
            res.operator == operator,
            res.path@ == path@,
            res.is_dir == is_dir,
    {
        OpenDALHandle { operator, path: string_of(&chars_of(path)), is_dir }
    }

    /// What removing the entry takes: a directory is removed with all it holds.
    pub fn removal(&self) -> (res: Removal)
        ensures
            self.is_dir ==> (res matches Removal::Tree(k) && k@ == remote_key(self.path@, true)),
            !self.is_dir ==> (res matches Removal::Single(k) && k@ == remote_key(
                self.path@,
                false,
            )),
    {
        let key = path_to_str(self.path.as_str(), self.is_dir);
        if self.is_dir {
            Removal::Tree(key)
        } else {
            Removal::Single(key)
        }
    }

    /// The source and target keys for renaming the entry to `dest`.
    pub fn rename_keys(&self, dest: &str) -> (res: (String, String))
        ensures
            res.0@ == remote_key(self.path@, self.is_dir),
            res.1@ == remote_key(dest@, self.is_dir),
    {
        (path_to_str(self.path.as_str(), self.is_dir), path_to_str(dest, self.is_dir))
    }

    /// The key to list the entry under.
    pub fn list_key(&self) -> (res: String)
        ensures
            res@ == remote_key(self.path@, true),
    {
        path_to_str(self.path.as_str(), true)
    }
}

/// The content a remote file holds after appending `added` to it: `added` alone when the
/// file is truncated first, otherwise what it held (nothing, when it did not exist) and then
/// `added`.
pub fn appended_content(truncate: bool, existing: Option<Vec<u8>>, added: &Vec<u8>) -> (res: Vec<u8>)
    ensures
        truncate ==> res@ == added@,
        !truncate ==> res@ == (match existing {
            Some(v) => v@,
            None => Seq::<u8>::empty(),
        }) + added@,
{
    let mut out: Vec<u8> = if truncate {
        Vec::new()
    } else {
        match existing {
            Some(v) => v,
            None => Vec::new(),
        }
    };
    let ghost start = out@;
    let mut i: usize = 0;
    while i < added.len()
        invariant
            i <= added.len(),
            out@ == start + added@.take(i as int),
        decreases added.len() - i,
    {
        out.push(added[i]);
        i = i + 1;
        assert(out@ =~= start + added@.take(i as int));
    }
    assert(added@.take(added.len() as int) =~= added@);
    assert(truncate ==> start =~= Seq::<u8>::empty());
    out
}

} // verus!
