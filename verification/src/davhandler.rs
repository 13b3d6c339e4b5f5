//! The handler's configuration, the context of one request, and the
//! dispatcher: which requests are let through to which handler.

use std::sync::Arc;
use vstd::prelude::*;
use bytes::Bytes;
use crate::body::{drained, items_view, read_request, MAX_BODY};
use crate::davpath::{from_uri_spec, trim_prefix, DavPath};
use crate::errors::{DavError, DavResult, BAD_REQUEST, METHOD_NOT_ALLOWED, UNSUPPORTED_MEDIA_TYPE};
use crate::method::{classify, dav_method, AllowedMethods, Method};
use crate::response::{content_location, DavResponse};

verus! {

/// Configuration of the handler. Every field may be absent; `F` is the
/// handle of a filesystem backend, `L` that of a lock store.
pub struct DavConfig<F, L> {
    /// Prefix to be stripped off when handling a request.
    pub prefix: Option<String>,
    /// Filesystem backend.
    pub fs: Option<F>,
    /// Lock store backend.
    pub ls: Option<L>,
    /// Set of allowed methods (`None` means all methods).
    pub allow: Option<AllowedMethods>,
    /// The owner that created locks are given.
    pub principal: Option<String>,
    /// Hide symbolic links? `None` stands for `true`.
    pub hide_symlinks: Option<bool>,
}

/// The handler: a configuration, shared by the requests it serves.
pub struct DavHandler<F, L> {
    pub config: Arc<DavConfig<F, L>>,
}

/// The filesystem of one request: a backend, or the inert one that
/// holds nothing and permits nothing.
pub enum FileSystem<F> {
    Void,
    Backend(F),
}

/// The configuration of one request, resolved.
pub struct DavInner<F, L> {
    pub prefix: String,
    pub fs: FileSystem<F>,
    pub ls: Option<L>,
    pub allow: Option<AllowedMethods>,
    pub principal: Option<String>,
    pub hide_symlinks: Option<bool>,
}

/// What a field of a merged configuration holds: the override's value
/// where it has one, else a clone of the base's.
pub open spec fn merged<T: Clone>(base: Option<T>, over: Option<T>, r: Option<T>) -> bool {
    match over {
        Some(v) => r == Some(v),
        None => match base {
            Some(b) => r.is_some() && cloned(b, r.unwrap()),
            None => r.is_none(),
        },
    }
}

/// The override's value where it has one, else the base's.
pub open spec fn or_else<T>(over: Option<T>, base: Option<T>) -> Option<T> {
    match over {
        Some(_) => over,
        None => base,
    }
}

fn merge_field<T: Clone>(base: &Option<T>, over: Option<T>) -> (r: Option<T>)
    ensures
        merged(*base, over, r),
{
    match over {
        Some(v) => Some(v),
        None => match base {
            Some(b) => Some(b.clone()),
            None => None,
        },
    }
}

fn merge_text(base: &Option<String>, over: Option<String>) -> (r: Option<String>)
    ensures
        r == or_else(over, *base),
{
    match over {
        Some(v) => Some(v),
        None => match base {
            Some(b) => Some(b.clone()),
            None => None,
        },
    }
}

impl<F: Clone, L: Clone> DavConfig<F, L> {
    /// A configuration with no field set.
    pub fn new() -> (cfg: DavConfig<F, L>)
        ensures
            cfg.prefix.is_none(),
            cfg.fs.is_none(),
            cfg.ls.is_none(),
            cfg.allow.is_none(),
            cfg.principal.is_none(),
            cfg.hide_symlinks.is_none(),
    {
        DavConfig { prefix: None, fs: None, ls: None, allow: None, principal: None, hide_symlinks: None }
    }

    /// The handler with this configuration.
    pub fn build_handler(self) -> (h: DavHandler<F, L>)
        ensures
            *h.config == self,
    {
        DavHandler { config: Arc::new(self) }
    }

    /// Prefix to be stripped off before the rest of the request path is
    /// taken as a path of the filesystem.
    pub fn strip_prefix(self, prefix: String) -> (cfg: Self)
        ensures
            cfg == (DavConfig { prefix: Some(prefix), ..self }),
    {
        let mut this = self;
        this.prefix = Some(prefix);
        this
    }

    /// Set the filesystem to use.
    pub fn filesystem(self, fs: F) -> (cfg: Self)
        ensures
            cfg == (DavConfig { fs: Some(fs), ..self }),
    {
        let mut this = self;
        this.fs = Some(fs);
        this
    }

    /// Set the lock store to use.
    pub fn locksystem(self, ls: L) -> (cfg: Self)
        ensures
            cfg == (DavConfig { ls: Some(ls), ..self }),
    {
        let mut this = self;
        this.ls = Some(ls);
        this
    }

    /// Which methods to allow (default is all methods).
    pub fn methods(self, allow: AllowedMethods) -> (cfg: Self)
        ensures
            cfg == (DavConfig { allow: Some(allow), ..self }),
    {
        let mut this = self;
        this.allow = Some(allow);
        this
    }

    /// Set the owner of any lock that is created.
    pub fn principal(self, principal: String) -> (cfg: Self)
        ensures
            cfg == (DavConfig { principal: Some(principal), ..self }),
    {
        let mut this = self;
        this.principal = Some(principal);
        this
    }

    /// Hide symbolic links (default is true).
    pub fn hide_symlinks(self, hide: bool) -> (cfg: Self)
        ensures
            cfg == (DavConfig { hide_symlinks: Some(hide), ..self }),
    {
        let mut this = self;
        this.hide_symlinks = Some(hide);
        this
    }

    /// The configuration of one request: field by field, what `new` sets
    /// wins, and what it leaves open is kept from `self`.
    pub fn merge(&self, new: DavConfig<F, L>) -> (cfg: DavConfig<F, L>)
        ensures
            cfg.prefix == or_else(new.prefix, self.prefix),
            merged(self.fs, new.fs, cfg.fs),
            merged(self.ls, new.ls, cfg.ls),
            cfg.allow == or_else(new.allow, self.allow),
            cfg.principal == or_else(new.principal, self.principal),
            cfg.hide_symlinks == or_else(new.hide_symlinks, self.hide_symlinks),
    {
        DavConfig {
            prefix: merge_text(&self.prefix, new.prefix),
            fs: merge_field(&self.fs, new.fs),
            ls: merge_field(&self.ls, new.ls),
            allow: match new.allow {
                Some(a) => Some(a),
                None => self.allow,
            },
            principal: merge_text(&self.principal, new.principal),
            hide_symlinks: match new.hide_symlinks {
                Some(h) => Some(h),
                None => self.hide_symlinks,
            },
        }
    }
}

impl<F: Clone, L: Clone> DavHandler<F, L> {
    /// A handler with an empty configuration: of use where each request
    /// brings its own.
    pub fn new() -> (h: DavHandler<F, L>)
        ensures
            h.config.prefix.is_none(),
            h.config.fs.is_none(),
            h.config.ls.is_none(),
            h.config.allow.is_none(),
            h.config.principal.is_none(),
            h.config.hide_symlinks.is_none(),
    {
        DavHandler { config: Arc::new(DavConfig::new()) }
    }

    /// Return a configuration builder.
    pub fn builder() -> (cfg: DavConfig<F, L>)
        ensures
            cfg.prefix.is_none(),
            cfg.fs.is_none(),
            cfg.ls.is_none(),
            cfg.allow.is_none(),
            cfg.principal.is_none(),
            cfg.hide_symlinks.is_none(),
    {
        DavConfig::new()
    }

    /// The context of a request that is served with the handler's own
    /// configuration.
    pub fn context(&self) -> (ctx: DavInner<F, L>)
        ensures
            resolves(*self.config, ctx),
    {
        DavInner::from_config_ref(&*self.config)
    }

    /// The context of a request that overrides parts of the configuration.
    pub fn context_with(&self, config: DavConfig<F, L>) -> (ctx: DavInner<F, L>)
        ensures
            ctx.prefix@ == match or_else(config.prefix, self.config.prefix) {
                Some(p) => p@,
                None => Seq::<char>::empty(),
            },
            match ctx.fs {
                FileSystem::Void => config.fs.is_none() && self.config.fs.is_none(),
                FileSystem::Backend(f) => merged(self.config.fs, config.fs, Some(f)),
            },
            merged(self.config.ls, config.ls, ctx.ls),
            ctx.allow == or_else(config.allow, self.config.allow),
            ctx.principal == or_else(config.principal, self.config.principal),
            ctx.hide_symlinks == or_else(config.hide_symlinks, self.config.hide_symlinks),
    {
        DavInner::from_config(self.config.merge(config))
    }
}

/// Whether `ctx` is `cfg` resolved: each absent field has its default (no
/// prefix, the inert filesystem), a handle may be a clone.
pub open spec fn resolves<F: Clone, L: Clone>(cfg: DavConfig<F, L>, ctx: DavInner<F, L>) -> bool {
    &&& ctx.prefix@ == match cfg.prefix {
        Some(p) => p@,
        None => Seq::<char>::empty(),
    }
    &&& match ctx.fs {
        FileSystem::Void => cfg.fs.is_none(),
        FileSystem::Backend(f) => cfg.fs.is_some() && cloned(cfg.fs.unwrap(), f),
    }
    &&& merged(cfg.ls, None, ctx.ls)
    &&& ctx.allow == cfg.allow
    &&& ctx.principal == cfg.principal
    &&& ctx.hide_symlinks == cfg.hide_symlinks
}

impl<F: Clone, L: Clone> Clone for DavInner<F, L> {
    /// A context of its own for another task, with clones of the handles.
    fn clone(&self) -> (ctx: DavInner<F, L>)
        ensures
            ctx.prefix == self.prefix,
            match self.fs {
                FileSystem::Void => ctx.fs == FileSystem::<F>::Void,
                FileSystem::Backend(f) => ctx.fs matches FileSystem::Backend(g) && cloned(f, g),
            },
            merged(self.ls, None, ctx.ls),
            ctx.allow == self.allow,
            ctx.principal == self.principal,
            ctx.hide_symlinks == self.hide_symlinks,
    {
        DavInner {
            prefix: self.prefix.clone(),
            fs: match &self.fs {
                FileSystem::Backend(f) => FileSystem::Backend(f.clone()),
                FileSystem::Void => FileSystem::Void,
            },
            ls: merge_field(&self.ls, None),
            allow: self.allow,
            principal: merge_text(&self.principal, None),
            hide_symlinks: self.hide_symlinks,
        }
    }
}

/// What a request is let through as.
#[derive(Debug)]
pub struct Accepted {
    /// The operation.
    pub method: Method,
    /// The resource.
    pub path: DavPath,
    /// `None` where the handler takes the body as a stream, else the
    /// number of bytes up to which the body is buffered.
    pub buffer: Option<usize>,
}

/// The handlers, one for each kind of operation.
#[derive(Clone, Copy, Debug, PartialEq, Eq, Structural)]
pub enum Handler {
    Options,
    PropFind,
    PropPatch,
    MkCol,
    Delete,
    Lock,
    Unlock,
    Get,
    Put,
    CopyMove,
}

/// A request that has passed the dispatcher, for its handler.
#[derive(Debug)]
pub struct Dispatch {
    pub handler: Handler,
    pub method: Method,
    pub path: DavPath,
    /// The body, where it was buffered; empty where the handler streams it.
    pub body: Vec<u8>,
}

/// The handler that serves an operation.
pub open spec fn handler_of(m: Method) -> Handler {
    match m {
        Method::Options => Handler::Options,
        Method::PropFind => Handler::PropFind,
        Method::PropPatch => Handler::PropPatch,
        Method::MkCol => Handler::MkCol,
        Method::Delete => Handler::Delete,
        Method::Lock => Handler::Lock,
        Method::Unlock => Handler::Unlock,
        Method::Head | Method::Get => Handler::Get,
        Method::Put | Method::Patch => Handler::Put,
        Method::Copy | Method::Move => Handler::CopyMove,
    }
}

/// The operations of an optional set; `None` stands for all of them.
pub open spec fn permitted(allow: Option<AllowedMethods>) -> Set<Method> {
    match allow {
        Some(a) => a@,
        None => Set::full(),
    }
}

/// The set of operations that holds for a request: with the inert
/// filesystem an `OPTIONS` request that is permitted narrows it to
/// `OPTIONS` alone; else it is the configured one.
pub open spec fn effective(allow: Option<AllowedMethods>, void: bool, m: Method) -> Set<Method> {
    if void && m == Method::Options && permitted(allow).contains(Method::Options) {
        set![Method::Options]
    } else {
        permitted(allow)
    }
}

/// Whether the two gates let an operation through: first the filesystem,
/// which, if inert, lets only `OPTIONS` pass, then the configured set.
pub open spec fn admitted(allow: Option<AllowedMethods>, void: bool, m: Method) -> bool {
    !(void && m != Method::Options) && effective(allow, void, m).contains(m)
}

/// What the dispatcher decides before it reads a body: the error, or the
/// operation with the segments and the collection flag of its path.
pub open spec fn begin_spec(
    allow: Option<AllowedMethods>,
    void: bool,
    prefix: Seq<u8>,
    token: Seq<u8>,
    uri: Seq<u8>,
) -> Result<(Method, Seq<Seq<u8>>, bool), DavError> {
    match classify(token) {
        None => Err(DavError::Status(METHOD_NOT_ALLOWED)),
        Some(m) => if !admitted(allow, void, m) {
            Err(DavError::StatusClose(METHOD_NOT_ALLOWED))
        } else {
            match from_uri_spec(uri, prefix) {
                None => Err(DavError::Status(BAD_REQUEST)),
                Some((segs, collection)) => Ok((m, segs, collection)),
            }
        },
    }
}

/// What the dispatcher decides once the body is there: 415 where an
/// operation that takes no body got one, else the handler.
pub open spec fn select_spec(m: Method, body_len: int) -> Result<Handler, DavError> {
    if !m.accepts_body_spec() && body_len > 0 {
        Err(DavError::Status(UNSUPPORTED_MEDIA_TYPE))
    } else {
        Ok(handler_of(m))
    }
}

/// A method token that names no operation is refused with 405 before
/// anything else is looked at.
pub proof fn unknown_method_is_refused(
    allow: Option<AllowedMethods>,
    void: bool,
    prefix: Seq<u8>,
    token: Seq<u8>,
    uri: Seq<u8>,
)
    requires
        classify(token).is_none(),
    ensures
        begin_spec(allow, void, prefix, token, uri) == Err::<(Method, Seq<Seq<u8>>, bool), DavError>(
            DavError::Status(METHOD_NOT_ALLOWED),
        ),
{
}

/// With the inert filesystem only `OPTIONS` is let through, with the
/// set of methods narrowed to `OPTIONS` alone; every other request ends
/// with status 405.
pub proof fn inert_filesystem_permits_only_options(
    allow: Option<AllowedMethods>,
    prefix: Seq<u8>,
    token: Seq<u8>,
    uri: Seq<u8>,
)
    ensures
        match begin_spec(allow, true, prefix, token, uri) {
            Ok((m, _, _)) => m == Method::Options && effective(allow, true, m) == set![Method::Options],
            Err(e) => classify(token) != Some(Method::Options) ==> e.status_spec()
                == METHOD_NOT_ALLOWED,
        },
{
}

/// A body on an operation that takes none is refused with 415.
pub proof fn unexpected_body_is_refused(m: Method, body_len: int)
    requires
        !m.accepts_body_spec(),
        body_len > 0,
    ensures
        select_spec(m, body_len) == Err::<Handler, DavError>(DavError::Status(UNSUPPORTED_MEDIA_TYPE)),
{
}

/// Picks the handler of a request from its operation and the length of
/// the body that was buffered for it.
pub fn select_handler(method: Method, body_len: usize) -> (r: DavResult<Handler>)
    ensures
        r == select_spec(method, body_len as int),
{
    if !method.accepts_body() && body_len > 0 {
        return Err(DavError::Status(UNSUPPORTED_MEDIA_TYPE));
    }
    Ok(
        match method {
            Method::Options => Handler::Options,
            Method::PropFind => Handler::PropFind,
            Method::PropPatch => Handler::PropPatch,
            Method::MkCol => Handler::MkCol,
            Method::Delete => Handler::Delete,
            Method::Lock => Handler::Lock,
            Method::Unlock => Handler::Unlock,
            Method::Head | Method::Get => Handler::Get,
            Method::Put | Method::Patch => Handler::Put,
            Method::Copy | Method::Move => Handler::CopyMove,
        },
    )
}

impl<F: Clone, L: Clone> DavInner<F, L> {
    /// Resolves a configuration: an absent prefix is empty, an absent
    /// filesystem the inert one.
    pub fn from_config(cfg: DavConfig<F, L>) -> (ctx: DavInner<F, L>)
        ensures
            ctx.prefix@ == match cfg.prefix {
                Some(p) => p@,
                None => Seq::<char>::empty(),
            },
            ctx.fs == match cfg.fs {
                Some(f) => FileSystem::Backend(f),
                None => FileSystem::Void,
            },
            ctx.ls == cfg.ls,
            ctx.allow == cfg.allow,
            ctx.principal == cfg.principal,
            ctx.hide_symlinks == cfg.hide_symlinks,
    {
        DavInner {
            prefix: match cfg.prefix {
                Some(p) => p,
                None => String::new(),
            },
            fs: match cfg.fs {
                Some(f) => FileSystem::Backend(f),
                None => FileSystem::Void,
            },
            ls: cfg.ls,
            allow: cfg.allow,
            principal: cfg.principal,
            hide_symlinks: cfg.hide_symlinks,
        }
    }

    /// Resolves a shared configuration, with clones of its handles.
    pub fn from_config_ref(cfg: &DavConfig<F, L>) -> (ctx: DavInner<F, L>)
        ensures
            resolves(*cfg, ctx),
    {
        DavInner {
            prefix: match &cfg.prefix {
                Some(p) => p.clone(),
                None => String::new(),
            },
            fs: match &cfg.fs {
                Some(f) => FileSystem::Backend(f.clone()),
                None => FileSystem::Void,
            },
            ls: merge_field(&cfg.ls, None),
            allow: cfg.allow,
            principal: merge_text(&cfg.principal, None),
            hide_symlinks: cfg.hide_symlinks,
        }
    }

    /// Whether the filesystem is the inert one.
    pub open spec fn is_void(&self) -> bool {
        self.fs is Void
    }

    /// The prefix as the bytes that a URI is compared with.
    pub open spec fn prefix_bytes(&self) -> Seq<u8> {
        vstd::utf8::encode_utf8(self.prefix@)
    }

    /// Whether the filesystem is the inert one.
    pub fn is_voidfs(&self) -> (void: bool)
        ensures
            void == self.is_void(),
    {
        match &self.fs {
            FileSystem::Void => true,
            FileSystem::Backend(_) => false,
        }
    }

    /// Whether symbolic links are hidden: they are, unless the
    /// configuration says otherwise.
    pub fn hides_symlinks(&self) -> (hide: bool)
        ensures
            hide == match self.hide_symlinks {
                Some(h) => h,
                None => true,
            },
    {
        match self.hide_symlinks {
            Some(h) => h,
            None => true,
        }
    }

    /// The path of a request that the dispatcher has let through.
    pub fn path(&self, uri: &[u8]) -> (p: DavPath)
        requires
            from_uri_spec(uri@, self.prefix_bytes()).is_some(),
        ensures
            from_uri_spec(uri@, self.prefix_bytes()) == Some((p.segments_spec(), p.collection_spec())),
            p.prefix_spec() == trim_prefix(self.prefix_bytes()),
            p.wf(),
    {
        match DavPath::from_uri(uri, self.prefix.as_str().as_bytes()) {
            Ok(p) => p,
            Err(_) => {
                proof {
                    assert(false);
                }
                unreached()
            },
        }
    }

    /// Where the resource turned out to be a directory and the path is not
    /// written as a collection, the path gets its slash and the response a
    /// `Content-Location` with the corrected URL, prefix included. Else
    /// both stay as they are.
    pub fn fixpath(&self, res: &mut DavResponse, path: &mut DavPath, is_dir: bool)
        ensures
            old(path).wf() ==> final(path).wf(),
            final(path).segments_spec() == old(path).segments_spec(),
            final(path).prefix_spec() == old(path).prefix_spec(),
            final(path).collection_spec() == (old(path).collection_spec() || is_dir),
            final(res)@ == if is_dir && !old(path).collection_spec() {
                (old(res).status, old(res)@.1.push(content_location(final(path).url_with_prefix())))
            } else {
                old(res)@
            },
    {
        if is_dir && !path.is_collection() {
            path.add_slash();
            let newloc = path.as_url_bytes_with_prefix();
            res.set_content_location(newloc);
        }
    }

    /// The first part of the dispatcher, before any body is read: the
    /// method is classified, the two gates are passed, and the path is
    /// built. With the inert filesystem a permitted `OPTIONS` request
    /// narrows the context's set of methods to `OPTIONS` alone.
    pub fn begin(&mut self, token: &[u8], uri: &[u8]) -> (r: DavResult<Accepted>)
        ensures
            final(self).prefix == old(self).prefix,
            final(self).fs == old(self).fs,
            final(self).ls == old(self).ls,
            final(self).principal == old(self).principal,
            final(self).hide_symlinks == old(self).hide_symlinks,
            permitted(final(self).allow) == match classify(token@) {
                Some(m) => effective(old(self).allow, old(self).is_void(), m),
                None => permitted(old(self).allow),
            },
            match begin_spec(old(self).allow, old(self).is_void(), old(self).prefix_bytes(), token@, uri@) {
                Ok((m, segs, collection)) => r.is_ok() && r.unwrap().method == m
                    && r.unwrap().path.wf()
                    && r.unwrap().path.segments_spec() == segs
                    && r.unwrap().path.collection_spec() == collection
                    && r.unwrap().path.prefix_spec() == trim_prefix(old(self).prefix_bytes())
                    && r.unwrap().buffer == if m.streams_body_spec() {
                        None::<usize>
                    } else {
                        Some(MAX_BODY)
                    },
                Err(e) => (r matches Err(x) && x == e),
            },
    {
        let method = match dav_method(token) {
            Ok(m) => m,
            Err(e) => {
                return Err(e);
            },
        };
        if self.is_voidfs() {
            match method {
                Method::Options => {
                    let open = match &self.allow {
                        Some(a) => a.allowed(Method::Options),
                        None => true,
                    };
                    if open {
                        let mut a = AllowedMethods::none();
                        a.add(Method::Options);
                        assert(a@ =~= set![Method::Options]);
                        self.allow = Some(a);
                    }
                },
                _ => {
                    return Err(DavError::StatusClose(METHOD_NOT_ALLOWED));
                },
            }
        }
        if let Some(a) = &self.allow {
            if !a.allowed(method) {
                return Err(DavError::StatusClose(METHOD_NOT_ALLOWED));
            }
        }
        let path = match DavPath::from_uri(uri, self.prefix.as_str().as_bytes()) {
            Ok(p) => p,
            Err(e) => {
                return Err(e);
            },
        };
        let buffer = if method.streams_body() {
            None
        } else {
            Some(MAX_BODY)
        };
        Ok(Accepted { method: method, path: path, buffer: buffer })
    }

    /// The dispatcher for a request whose body is at hand as the chunks
    /// that the transport read: `begin`, then the body is drained unless
    /// the handler streams it, then the handler is picked.
    pub fn handle2<E>(&mut self, token: &[u8], uri: &[u8], body: &Vec<Result<Bytes, E>>) -> (r:
        DavResult<Dispatch>)
        ensures
            final(self).prefix == old(self).prefix,
            final(self).fs == old(self).fs,
            final(self).ls == old(self).ls,
            final(self).principal == old(self).principal,
            final(self).hide_symlinks == old(self).hide_symlinks,
            permitted(final(self).allow) == match classify(token@) {
                Some(m) => effective(old(self).allow, old(self).is_void(), m),
                None => permitted(old(self).allow),
            },
            r matches Ok(d) ==> d.path.wf() && d.path.prefix_spec() == trim_prefix(
                old(self).prefix_bytes(),
            ),
            match begin_spec(old(self).allow, old(self).is_void(), old(self).prefix_bytes(), token@, uri@) {
                Err(e) => (r matches Err(x) && x == e),
                Ok((m, segs, collection)) => if m.streams_body_spec() {
                    r.is_ok() && r.unwrap().handler == Handler::Put && r.unwrap().method == m
                        && r.unwrap().path.segments_spec() == segs
                        && r.unwrap().path.collection_spec() == collection
                        && r.unwrap().body@ == Seq::<u8>::empty()
                } else {
                    match drained(items_view(body@), MAX_BODY as int) {
                        Err(e) => (r matches Err(x) && x == e),
                        Ok(data) => match select_spec(m, data.len() as int) {
                            Err(e) => (r matches Err(x) && x == e),
                            Ok(h) => r.is_ok() && r.unwrap().handler == h && r.unwrap().method == m
                                && r.unwrap().path.segments_spec() == segs
                                && r.unwrap().path.collection_spec() == collection
                                && r.unwrap().body@ == data,
                        },
                    }
                },
            },
    {
        let accepted = match self.begin(token, uri) {
            Ok(a) => a,
            Err(e) => {
                return Err(e);
            },
        };
        let data: Vec<u8> = match accepted.buffer {
            None => Vec::new(),
            Some(max) => match read_request(body, max) {
                Ok(d) => d,
                Err(e) => {
                    return Err(e);
                },
            },
        };
        let handler = match select_handler(accepted.method, data.len()) {
            Ok(h) => h,
            Err(e) => {
                return Err(e);
            },
        };
        Ok(Dispatch { handler: handler, method: accepted.method, path: accepted.path, body: data })
    }
}

} // verus!
