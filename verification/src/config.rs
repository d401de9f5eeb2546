//! Configuration values, already parsed and validated: where the
//! server keeps its files, the shared password, which paths it
//! ignores, and the client's mapping table of local paths to remote
//! identities.  The engine takes these as plain input; reading and
//! parsing the configuration file is the surrounding program's work.

use vstd::prelude::*;

verus! {

/// A configured pairing of one client path with one server path, for
/// a single file or a whole directory subtree.
pub struct Mapping {
    client_path: String,
    server_path: String,
}

#[verifier::ext_equal]
pub ghost struct MappingView {
    pub client_path: Seq<char>,
    pub server_path: Seq<char>,
}

impl View for Mapping {
    type V = MappingView;

    closed spec fn view(&self) -> MappingView {
        MappingView { client_path: self.client_path@, server_path: self.server_path@ }
    }
}

impl Mapping {
    pub fn new(client_path: String, server_path: String) -> (m: Mapping)
        ensures
            m@ == (MappingView { client_path: client_path@, server_path: server_path@ }),
    {
        Mapping { client_path, server_path }
    }

    pub fn get_client_path(&self) -> (r: &String)
        ensures
            r@ == self@.client_path,
    {
        &self.client_path
    }

    pub fn get_client_path_str(&self) -> (r: &str)
        ensures
            r@ == self@.client_path,
    {
        self.client_path.as_str()
    }

    pub fn get_server_path(&self) -> (r: &String)
        ensures
            r@ == self@.server_path,
    {
        &self.server_path
    }

    pub fn get_server_path_str(&self) -> (r: &str)
        ensures
            r@ == self@.server_path,
    {
        self.server_path.as_str()
    }
}

pub open spec fn mappings_view(s: Seq<Mapping>) -> Seq<MappingView> {
    s.map_values(|m: Mapping| m@)
}

/// The configured file and directory mappings.
pub struct Mappings {
    files: Vec<Mapping>,
    dirs: Vec<Mapping>,
}

#[verifier::ext_equal]
pub ghost struct MappingsView {
    pub files: Seq<MappingView>,
    pub dirs: Seq<MappingView>,
}

impl View for Mappings {
    type V = MappingsView;

    closed spec fn view(&self) -> MappingsView {
        MappingsView { files: mappings_view(self.files@), dirs: mappings_view(self.dirs@) }
    }
}

impl Mappings {
    pub fn new(files: Vec<Mapping>, dirs: Vec<Mapping>) -> (m: Mappings)
        ensures
            m@ == (MappingsView { files: mappings_view(files@), dirs: mappings_view(dirs@) }),
    {
        Mappings { files, dirs }
    }

    pub fn get_file_mappings(&self) -> (r: &Vec<Mapping>)
        ensures
            mappings_view(r@) == self@.files,
    {
        &self.files
    }

    pub fn get_dir_mappings(&self) -> (r: &Vec<Mapping>)
        ensures
            mappings_view(r@) == self@.dirs,
    {
        &self.dirs
    }
}

/// The server's side of the configuration.
pub struct ServerConfig {
    files_root: String,
    password: String,
    ignored_paths: Vec<String>,
}

#[verifier::ext_equal]
pub ghost struct ServerConfigView {
    pub files_root: Seq<char>,
    pub password: Seq<char>,
    pub ignored_paths: Seq<Seq<char>>,
}

impl View for ServerConfig {
    type V = ServerConfigView;

    closed spec fn view(&self) -> ServerConfigView {
        ServerConfigView {
            files_root: self.files_root@,
            password: self.password@,
            ignored_paths: self.ignored_paths@.map_values(|p: String| p@),
        }
    }
}

impl ServerConfig {
    pub fn new(files_root: String, password: String, ignored_paths: Vec<String>) -> (c:
        ServerConfig)
        ensures
            c@ == (ServerConfigView {
                files_root: files_root@,
                password: password@,
                ignored_paths: ignored_paths@.map_values(|p: String| p@),
            }),
    {
        ServerConfig { files_root, password, ignored_paths }
    }

    pub fn get_files_root(&self) -> (r: &str)
        ensures
            r@ == self@.files_root,
    {
        self.files_root.as_str()
    }

    pub fn get_password(&self) -> (r: &String)
        ensures
            r@ == self@.password,
    {
        &self.password
    }

    pub fn get_ignored_paths(&self) -> (r: &Vec<String>)
        ensures
            r@.map_values(|p: String| p@) == self@.ignored_paths,
    {
        &self.ignored_paths
    }

    /// Whether the server is configured to ignore this path.
    pub fn is_ignored(&self, path: &String) -> (r: bool)
        ensures
            r == self@.ignored_paths.contains(path@),
    {
        let mut i: usize = 0;
        while i < self.ignored_paths.len()
            invariant
                i <= self.ignored_paths@.len(),
                self@.ignored_paths.len() == self.ignored_paths@.len(),
                forall|j: int| 0 <= j < i ==> self@.ignored_paths[j] != path@,
            decreases self.ignored_paths@.len() - i,
        {
            proof {
                assert(self@.ignored_paths[i as int] == self.ignored_paths@[i as int]@);
            }
            if self.ignored_paths[i] == *path {
                return true;
            }
            i += 1;
        }
        false
    }
}

/// The client's side of the configuration.
pub struct ClientConfig {
    server_url: String,
    mappings: Mappings,
}

#[verifier::ext_equal]
pub ghost struct ClientConfigView {
    pub server_url: Seq<char>,
    pub mappings: MappingsView,
}

impl View for ClientConfig {
    type V = ClientConfigView;

    closed spec fn view(&self) -> ClientConfigView {
        ClientConfigView { server_url: self.server_url@, mappings: self.mappings@ }
    }
}

impl ClientConfig {
    pub fn new(server_url: String, mappings: Mappings) -> (c: ClientConfig)
        ensures
            c@ == (ClientConfigView { server_url: server_url@, mappings: mappings@ }),
    {
        ClientConfig { server_url, mappings }
    }

    pub fn get_mappings(&self) -> (r: &Mappings)
        ensures
            r@ == self@.mappings,
    {
        &self.mappings
    }

    pub fn get_server_url(&self) -> (r: &str)
        ensures
            r@ == self@.server_url,
    {
        self.server_url.as_str()
    }
}

/// The whole parsed configuration.
pub struct Config {
    server: ServerConfig,
    client: ClientConfig,
}

#[verifier::ext_equal]
pub ghost struct ConfigView {
    pub server: ServerConfigView,
    pub client: ClientConfigView,
}

impl View for Config {
    type V = ConfigView;

    closed spec fn view(&self) -> ConfigView {
        ConfigView { server: self.server@, client: self.client@ }
    }
}

impl Config {
    pub fn new(server: ServerConfig, client: ClientConfig) -> (c: Config)
        ensures
            c@ == (ConfigView { server: server@, client: client@ }),
    {
        Config { server, client }
    }

    pub fn get_server_config(&self) -> (r: &ServerConfig)
        ensures
            r@ == self@.server,
    {
        &self.server
    }

    pub fn get_client_config(&self) -> (r: &ClientConfig)
        ensures
            r@ == self@.client,
    {
        &self.client
    }
}

} // verus!
