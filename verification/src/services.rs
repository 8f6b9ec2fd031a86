//! Remote storage services and the settings that each of them is opened with.
use std::collections::BTreeMap;
use vstd::prelude::*;

verus! {

/// Calls `BTreeMap::insert`, which maps `key` to `value` and drops what `key` mapped to
/// before. Keys are strings, so two keys are the same key when their text is the same.
#[verifier::external_body]
fn insert_entry(map: &mut BTreeMap<String, String>, key: String, value: String)
    ensures
        final(map).deep_view() == old(map).deep_view().insert(key@, value@),
{
    map.insert(key, value);
}

/// An empty settings map.
fn empty_settings() -> (map: BTreeMap<String, String>)
    ensures
        map.deep_view() == Map::<Seq<char>, Seq<char>>::empty(),
{
    let map: BTreeMap<String, String> = BTreeMap::new();
    proof {
        vstd::std_specs::btree::lemma_btree_map_deepview_dom(map);
        assert(map.deep_view().dom() =~= Set::<Seq<char>>::empty());
        assert(map.deep_view() =~= Map::<Seq<char>, Seq<char>>::empty());
    }
    map
}

/// The kind of storage service that a source speaks to.
#[derive(Clone, Copy, Debug, PartialEq, Eq, Hash, Structural)]
pub enum ServiceKind {
    Ftp,
    Gdrive,
    S3,
}

/// Settings of an FTP server.
#[derive(Debug, PartialEq, Eq, Hash)]
pub struct FtpConfig {
    pub endpoint: String,
    pub root: String,
    pub username: String,
    pub password: String,
}

impl Clone for FtpConfig {
    fn clone(&self) -> (res: Self)
        ensures
            res == *self,
    {
        FtpConfig {
            endpoint: self.endpoint.clone(),
            root: self.root.clone(),
            username: self.username.clone(),
            password: self.password.clone(),
        }
    }
}

impl FtpConfig {
    /// The settings as the service's option names and values.
    pub fn to_map(self) -> (map: BTreeMap<String, String>)
        ensures
            map.deep_view() == map![
                "endpoint"@ => self.endpoint@,
                "root"@ => self.root@,
                "user"@ => self.username@,
                "password"@ => self.password@,
            ],
    {
        let mut map = empty_settings();
        insert_entry(&mut map, "endpoint".to_owned(), self.endpoint);
        insert_entry(&mut map, "root".to_owned(), self.root);
        insert_entry(&mut map, "user".to_owned(), self.username);
        insert_entry(&mut map, "password".to_owned(), self.password);
        map
    }

    /// The service these settings are for.
    pub fn scheme(&self) -> (kind: ServiceKind)
        ensures
            kind == ServiceKind::Ftp,
    {
        ServiceKind::Ftp
    }
}

/// Settings of a Google Drive account.
#[derive(Debug, PartialEq, Eq, Hash)]
pub struct GDriveConfig {
    pub root: String,
    pub refresh_token: String,
    pub client_id: String,
    pub client_secret: String,
}

impl Clone for GDriveConfig {
    fn clone(&self) -> (res: Self)
        ensures
            res == *self,
    {
        GDriveConfig {
            root: self.root.clone(),
            refresh_token: self.refresh_token.clone(),
            client_id: self.client_id.clone(),
            client_secret: self.client_secret.clone(),
        }
    }
}

impl GDriveConfig {
    /// The settings as the service's option names and values.
    pub fn to_map(self) -> (map: BTreeMap<String, String>)
        ensures
            map.deep_view() == map![
                "root"@ => self.root@,
                "refresh_token"@ => self.refresh_token@,
                "client_id"@ => self.client_id@,
                "client_secret"@ => self.client_secret@,
            ],
    {
        let mut map = empty_settings();
        insert_entry(&mut map, "root".to_owned(), self.root);
        insert_entry(&mut map, "refresh_token".to_owned(), self.refresh_token);
        insert_entry(&mut map, "client_id".to_owned(), self.client_id);
        insert_entry(&mut map, "client_secret".to_owned(), self.client_secret);
        map
    }

    /// The service these settings are for.
    pub fn scheme(&self) -> (kind: ServiceKind)
        ensures
            kind == ServiceKind::Gdrive,
    {
        ServiceKind::Gdrive
    }
}

/// Settings of an S3-compatible bucket.
#[derive(Debug, PartialEq, Eq, Hash)]
pub struct S3Config {
    pub root: String,
    pub bucket: String,
    pub endpoint: String,
    pub region: String,
    pub access_key_id: String,
    pub secret_access_key: String,
}

impl Clone for S3Config {
    fn clone(&self) -> (res: Self)
        ensures
            res == *self,
    {
        S3Config {
            root: self.root.clone(),
            bucket: self.bucket.clone(),
            endpoint: self.endpoint.clone(),
            region: self.region.clone(),
            access_key_id: self.access_key_id.clone(),
            secret_access_key: self.secret_access_key.clone(),
        }
    }
}

impl S3Config {
    /// The settings as the service's option names and values.
    pub fn to_map(self) -> (map: BTreeMap<String, String>)
        ensures
            map.deep_view() == map![
                "root"@ => self.root@,
                "bucket"@ => self.bucket@,
                "endpoint"@ => self.endpoint@,
                "region"@ => self.region@,
                "access_key_id"@ => self.access_key_id@,
                "secret_access_key"@ => self.secret_access_key@,
            ],
    {
        let mut map = empty_settings();
        insert_entry(&mut map, "root".to_owned(), self.root);
        insert_entry(&mut map, "bucket".to_owned(), self.bucket);
        insert_entry(&mut map, "endpoint".to_owned(), self.endpoint);
        insert_entry(&mut map, "region".to_owned(), self.region);
        insert_entry(&mut map, "access_key_id".to_owned(), self.access_key_id);
        insert_entry(&mut map, "secret_access_key".to_owned(), self.secret_access_key);
        map
    }

    /// The service these settings are for.
    pub fn scheme(&self) -> (kind: ServiceKind)
        ensures
            kind == ServiceKind::S3,
    {
        ServiceKind::S3
    }
}

/// A remote source: one of the supported services with its settings.
#[derive(Debug, PartialEq, Eq, Hash)]
#[non_exhaustive]
pub enum RemoteSource {
    FTP(FtpConfig),
    Google(GDriveConfig),
    S3(S3Config),
}

impl Clone for RemoteSource {
    fn clone(&self) -> (res: Self)
        ensures
            res == *self,
    {
        match self {
            RemoteSource::FTP(x) => RemoteSource::FTP(x.clone()),
            RemoteSource::Google(x) => RemoteSource::Google(x.clone()),
            RemoteSource::S3(x) => RemoteSource::S3(x.clone()),
        }
    }
}

/// The option names and values that the settings of `src` give.
pub open spec fn settings_of(src: RemoteSource) -> Map<Seq<char>, Seq<char>> {
    match src {
        RemoteSource::FTP(x) => map![
            "endpoint"@ => x.endpoint@,
            "root"@ => x.root@,
            "user"@ => x.username@,
            "password"@ => x.password@,
        ],
        RemoteSource::Google(x) => map![
            "root"@ => x.root@,
            "refresh_token"@ => x.refresh_token@,
            "client_id"@ => x.client_id@,
            "client_secret"@ => x.client_secret@,
        ],
        RemoteSource::S3(x) => map![
            "root"@ => x.root@,
            "bucket"@ => x.bucket@,
            "endpoint"@ => x.endpoint@,
            "region"@ => x.region@,
            "access_key_id"@ => x.access_key_id@,
            "secret_access_key"@ => x.secret_access_key@,
        ],
    }
}

/// The service that `src` speaks to.
pub open spec fn kind_of(src: RemoteSource) -> ServiceKind {
    match src {
        RemoteSource::FTP(_) => ServiceKind::Ftp,
        RemoteSource::Google(_) => ServiceKind::Gdrive,
        RemoteSource::S3(_) => ServiceKind::S3,
    }
}

impl RemoteSource {
    /// The settings of the source as the service's option names and values.
    pub fn to_map(self) -> (map: BTreeMap<String, String>)
        ensures
            map.deep_view() == settings_of(self),
    {
        match self {
            RemoteSource::FTP(x) => x.to_map(),
            RemoteSource::Google(x) => x.to_map(),
            RemoteSource::S3(x) => x.to_map(),
        }
    }

    /// The service that the source speaks to: that of the settings it wraps.
    pub fn scheme(&self) -> (kind: ServiceKind)
        ensures
            kind == kind_of(*self),
            self is FTP ==> kind == ServiceKind::Ftp,
            self is Google ==> kind == ServiceKind::Gdrive,
            self is S3 ==> kind == ServiceKind::S3,
    {
        match self {
            RemoteSource::FTP(x) => x.scheme(),
            RemoteSource::Google(x) => x.scheme(),
            RemoteSource::S3(x) => x.scheme(),
        }
    }
}

/// The option names that the builder of each service reads.
pub open spec fn option_names(kind: ServiceKind) -> Set<Seq<char>> {
    match kind {
        ServiceKind::Ftp => set!["endpoint"@, "root"@, "user"@, "password"@],
        ServiceKind::Gdrive => set!["root"@, "refresh_token"@, "client_id"@, "client_secret"@],
        ServiceKind::S3 => set![
            "root"@,
            "bucket"@,
            "endpoint"@,
            "region"@,
            "access_key_id"@,
            "secret_access_key"@,
        ],
    }
}

/// A source is opened as the service its settings are for: the options handed over are
/// exactly the option names of the service that `scheme` picks, and each kind of settings
/// picks its own service.
pub proof fn source_kind_fits_settings(src: RemoteSource)
    ensures
        settings_of(src).dom() == option_names(kind_of(src)),
        src is FTP ==> kind_of(src) == ServiceKind::Ftp,
        src is Google ==> kind_of(src) == ServiceKind::Gdrive,
        src is S3 ==> kind_of(src) == ServiceKind::S3,
{
    reveal_strlit("endpoint");
    reveal_strlit("root");
    reveal_strlit("user");
    reveal_strlit("password");
    reveal_strlit("refresh_token");
    reveal_strlit("client_id");
    reveal_strlit("client_secret");
    reveal_strlit("bucket");
    reveal_strlit("region");
    reveal_strlit("access_key_id");
    reveal_strlit("secret_access_key");
    assert(settings_of(src).dom() =~= option_names(kind_of(src)));
}

} // verus!
