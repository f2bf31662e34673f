//! The client API around the transport core: the session handle, workspaces
//! with their path prefix, extension entry points, and where the
//! configuration directory is.
use vstd::prelude::*;
use vstd::string::StringExecFns;
use crate::endpoint::{prefix_before, take_before};
use crate::message::ResKey;
use crate::properties::{ConfigProperties, ZN_INFO_ROUTER_PID_KEY};
use crate::protocol::{zerr, ZError, ZErrorKind, ZResult};

verus! {

/// A session of the layer above the transport, as far as this API reads it:
/// the information it publishes about itself, and whether it is open.
#[derive(Clone, Debug)]
pub struct Session {
    pub info: ConfigProperties,
    pub open: bool,
}

impl Session {
    pub fn new(info: ConfigProperties) -> (r: Session)
        ensures
            r.info == info,
            r.open,
    {
        Session { info, open: true }
    }

    /// The information the session publishes about itself.
    pub fn info(&self) -> (r: ConfigProperties)
        ensures
            r@ == self.info@,
    {
        self.info.clone_props()
    }

    /// Closes the session; an error where it is closed already.
    pub fn close(self) -> (r: ZResult<()>)
        ensures
            self.open ==> r is Ok,
            !self.open ==> r == zerr::<()>(ZErrorKind::InvalidReference),
    {
        if self.open {
            Ok(())
        } else {
            Err(ZError { kind: ZErrorKind::InvalidReference })
        }
    }
}

/// A path of resources, such as `/demo/example`.
#[derive(Clone, Debug)]
pub struct Path {
    pub p: String,
}

/// A selection of resources: a path expression and a predicate.
#[derive(Clone, Debug)]
pub struct Selector {
    pub path_expr: String,
    pub predicate: String,
}

/// The janu client API: a session with its peers and routers.
pub struct Janu {
    pub session: Session,
}

/// A workspace: paths that do not start with `/` are taken relative to its prefix.
pub struct Workspace {
    pub prefix: Path,
}

pub open spec fn starts_with_slash(s: Seq<char>) -> bool {
    s.len() > 0 && s[0] == '/'
}

/// `p` taken relative to `prefix`.
pub open spec fn absolute_path(prefix: Seq<char>, p: Seq<char>) -> Seq<char> {
    if starts_with_slash(p) {
        p
    } else if prefix.len() > 0 && prefix.last() == '/' {
        prefix + p
    } else {
        prefix + seq!['/'] + p
    }
}

/// The router that a session's information names first, if any: the part
/// of its router property before the first comma, where it is not empty.
pub open spec fn first_router(info: Map<u64, Seq<char>>) -> Option<Seq<char>> {
    if info.contains_key(ZN_INFO_ROUTER_PID_KEY) && info[ZN_INFO_ROUTER_PID_KEY].len() > 0 {
        Some(prefix_before(info[ZN_INFO_ROUTER_PID_KEY], ','))
    } else {
        None
    }
}

impl From<Session> for Janu {
    fn from(session: Session) -> (r: Janu)
        ensures
            r.session == session,
    {
        Janu { session }
    }
}

impl vstd::std_specs::convert::FromSpecImpl<Session> for Janu {
    open spec fn obeys_from_spec() -> bool {
        true
    }

    open spec fn from_spec(session: Session) -> Janu {
        Janu { session }
    }
}

impl Session {
    /// A copy of this session's handle.
    pub fn duplicate(&self) -> (r: Session)
        ensures
            r.info@ == self.info@,
            r.open == self.open,
    {
        Session { info: self.info.clone_props(), open: self.open }
    }
}

impl<'a> From<&'a Session> for Janu {
    fn from(s: &'a Session) -> (r: Janu)
        ensures
            r.session.info@ == s.info@,
            r.session.open == s.open,
    {
        Janu { session: s.duplicate() }
    }
}

impl<'a> vstd::std_specs::convert::FromSpecImpl<&'a Session> for Janu {
    open spec fn obeys_from_spec() -> bool {
        false
    }

    open spec fn from_spec(s: &'a Session) -> Janu {
        Janu { session: *s }
    }
}

impl Janu {
    /// The session this API runs on.
    pub fn session(&self) -> (r: &Session)
        ensures
            r == &self.session,
    {
        &self.session
    }

    /// The router this API is connected to, if any.
    pub fn router_pid(&self) -> (r: Option<String>)
        ensures
            match first_router(self.session.info@) {
                Some(s) => r matches Some(x) && x@ == s,
                None => r is None,
            },
    {
        let info = self.session().info();
        match info.get(ZN_INFO_ROUTER_PID_KEY) {
            None => None,
            Some(s) => {
                if s.as_str().unicode_len() == 0 {
                    None
                } else {
                    Some(take_before(s.as_str(), ','))
                }
            },
        }
    }

    /// A workspace with `prefix`; without one, the prefix is `/`.
    pub fn workspace(&self, prefix: Option<Path>) -> (r: ZResult<Workspace>)
        ensures
            r matches Ok(w) && match prefix {
                Some(p) => w.prefix.p@ == p.p@,
                None => w.prefix.p@ == seq!['/'],
            },
    {
        match prefix {
            Some(p) => Ok(Workspace { prefix: p }),
            None => {
                proof {
                    reveal_strlit("/");
                }
                Ok(Workspace { prefix: Path { p: String::from_str("/") } })
            },
        }
    }

    /// Closes the API and its session.
    pub fn close(self) -> (r: ZResult<()>)
        ensures
            self.session.open ==> r is Ok,
            !self.session.open ==> r == zerr::<()>(ZErrorKind::InvalidReference),
    {
        self.session.close()
    }
}

impl Workspace {
    /// `path` taken relative to this workspace's prefix.
    pub fn absolute(&self, path: &Path) -> (r: Path)
        ensures
            r.p@ == absolute_path(self.prefix.p@, path.p@),
    {
        let s = path.p.as_str();
        if s.unicode_len() > 0 && s.get_char(0) == '/' {
            return Path { p: path.p.clone() };
        }
        let pre = self.prefix.p.as_str();
        let n = pre.unicode_len();
        if n > 0 && pre.get_char(n - 1) == '/' {
            Path { p: self.prefix.p.clone().concat(s) }
        } else {
            proof {
                reveal_strlit("/");
            }
            let with_slash = self.prefix.p.clone().concat("/");
            Path { p: with_slash.concat(s) }
        }
    }
}

/// How a querying subscriber is set up: the key it subscribes to, and the
/// key and predicate it first queries.
#[derive(Debug)]
pub struct QueryingSubscriberBuilder {
    pub sub_reskey: ResKey,
    pub query_reskey: ResKey,
    pub query_predicate: Vec<u8>,
}

/// How a publication cache is set up: the key it caches, and how many samples.
#[derive(Debug)]
pub struct PublicationCacheBuilder {
    pub pub_reskey: ResKey,
    pub history: usize,
}

/// Extensions of a session.
pub trait SessionExt {
    /// A querying subscriber on `sub_reskey` that first queries the same key.
    fn declare_querying_subscriber(&self, sub_reskey: &ResKey) -> (r: QueryingSubscriberBuilder)
        ensures
            r.sub_reskey@ == sub_reskey@,
            r.query_reskey@ == sub_reskey@,
            r.query_predicate@.len() == 0,
    ;

    /// A publication cache of `pub_reskey`, keeping one sample.
    fn declare_publication_cache(&self, pub_reskey: &ResKey) -> (r: PublicationCacheBuilder)
        ensures
            r.pub_reskey@ == pub_reskey@,
            r.history == 1,
    ;
}

impl SessionExt for Session {
    fn declare_querying_subscriber(&self, sub_reskey: &ResKey) -> (r: QueryingSubscriberBuilder) {
        QueryingSubscriberBuilder {
            sub_reskey: sub_reskey.duplicate(),
            query_reskey: sub_reskey.duplicate(),
            query_predicate: Vec::new(),
        }
    }

    fn declare_publication_cache(&self, pub_reskey: &ResKey) -> (r: PublicationCacheBuilder) {
        PublicationCacheBuilder { pub_reskey: pub_reskey.duplicate(), history: 1 }
    }
}

/// Extensions of a workspace.
pub trait WorkspaceExt {
    /// A querying subscriber on the selector's path expression, taken
    /// relative to the workspace, that first queries it with the selector's predicate.
    fn query_and_subscribe(&self, selector: &Selector) -> (r: QueryingSubscriberBuilder)
        ensures
            r.sub_reskey@ is RName,
            r.query_reskey@ == r.sub_reskey@,
            r.query_predicate@ == vstd::utf8::encode_utf8(selector.predicate@),
    ;
}

impl WorkspaceExt for Workspace {
    fn query_and_subscribe(&self, selector: &Selector) -> (r: QueryingSubscriberBuilder) {
        let path = self.absolute(&Path { p: selector.path_expr.clone() });
        let name = path.p.as_str().as_bytes_vec();
        let name2 = path.p.as_str().as_bytes_vec();
        QueryingSubscriberBuilder {
            sub_reskey: ResKey::RName(name),
            query_reskey: ResKey::RName(name2),
            query_predicate: selector.predicate.as_str().as_bytes_vec(),
        }
    }
}

/// The name of the configuration directory under the user's home.
pub const DEFAULT_JANU_HOME_DIRNAME: &'static str = ".janu";

/// The configuration directory: the value of the `JANU_HOME` environment
/// variable where it is set, else `.janu` joined to the user's home
/// directory where one is known (an empty home joins to `.janu` alone),
/// else `.janu`.
pub open spec fn home_path(env_value: Option<Seq<char>>, home_dir: Option<Seq<char>>) -> Seq<char> {
    match env_value {
        Some(v) => v,
        None => match home_dir {
            Some(h) => if h.len() == 0 {
                DEFAULT_JANU_HOME_DIRNAME@
            } else if h.last() == '/' {
                h + DEFAULT_JANU_HOME_DIRNAME@
            } else {
                h + seq!['/'] + DEFAULT_JANU_HOME_DIRNAME@
            },
            None => DEFAULT_JANU_HOME_DIRNAME@,
        },
    }
}

/// The configuration directory from the environment variable's value and the home directory.
pub fn janu_home_path(env_value: Option<String>, home_dir: Option<String>) -> (r: String)
    ensures
        r@ == home_path(
            match env_value {
                Some(v) => Some(v@),
                None => None,
            },
            match home_dir {
                Some(h) => Some(h@),
                None => None,
            },
        ),
{
    match env_value {
        Some(v) => v,
        None => match home_dir {
            Some(h) => {
                let n = h.as_str().unicode_len();
                if n == 0 {
                    String::from_str(DEFAULT_JANU_HOME_DIRNAME)
                } else if h.as_str().get_char(n - 1) == '/' {
                    h.concat(DEFAULT_JANU_HOME_DIRNAME)
                } else {
                    proof {
                        reveal_strlit("/");
                    }
                    h.concat("/").concat(DEFAULT_JANU_HOME_DIRNAME)
                }
            },
            None => String::from_str(DEFAULT_JANU_HOME_DIRNAME),
        },
    }
}

} // verus!
