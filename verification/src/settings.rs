//! Run configuration: per-feed policy, nested server groups, and the
//! flattening that turns the nesting into a flat list of servers with their
//! save directories.

use vstd::prelude::*;

use crate::bytestr::clone_bytes;

verus! {

/// The policy for one feed source.
pub struct Instance {
    /// The feed URL.
    pub url: Vec<u8>,
    /// Whether to fetch the images an article references and embed them.
    pub include_images: bool,
    /// Whether to fetch the full article: `Some(true)` always, `Some(false)`
    /// never, `None` only when the feed carries no inline content.
    pub download_full_article: Option<bool>,
    /// Whether to narrow a full article to a single main-content element.
    pub enable_filter: bool,
    /// The caller's own selector, tried before the fixed fallback list; only
    /// the simple `tag#id.class` form is understood, anything else is ignored
    /// and the fallback list alone is tried.
    pub filter_element: Option<Vec<u8>>,
    /// The author recorded when the feed names none: `None` falls back to
    /// the publisher; an explicitly empty string suppresses authorship.
    pub default_author: Option<Vec<u8>>,
}

impl Default for Instance {
    fn default() -> (r: Instance)
        ensures
            r.url@ == Seq::<u8>::empty(),
            r.include_images,
            r.download_full_article is None,
            r.enable_filter,
            r.filter_element is None,
            r.default_author is None,
    {
        Instance {
            url: Vec::new(),
            include_images: true,
            download_full_article: None,
            enable_filter: true,
            filter_element: None,
            default_author: None,
        }
    }
}

/// A configured server entry: one feed, or a named group of entries whose
/// artifacts nest into a directory named after the group.
pub enum InstanceDirectory {
    Parent(Vec<(Vec<u8>, InstanceDirectory)>),
    Leaf(Instance),
}

/// The run-wide settings.
pub struct Settings {
    /// How many requests may be in flight at once.
    pub concurrent_requests: u64,
    /// Whether each server's artifacts go into a directory named after it.
    pub use_server_name_directories: bool,
    /// The configured servers, by name.
    pub servers: Vec<(Vec<u8>, InstanceDirectory)>,
}

impl Default for Settings {
    fn default() -> (r: Settings)
        ensures
            r.concurrent_requests == 5,
            r.use_server_name_directories,
            r.servers@.len() == 0,
    {
        Settings { concurrent_requests: 5, use_server_name_directories: true, servers: Vec::new() }
    }
}

/// One flattened feed source: its name, the directory its artifacts go to,
/// and its policy.
pub struct Server {
    pub server: Vec<u8>,
    pub dir: Vec<u8>,
    pub instance: Instance,
}

/// The mathematical value of a flattened server.
#[verifier::ext_equal]
pub struct ServerV {
    pub server: Seq<u8>,
    pub dir: Seq<u8>,
    pub instance: Instance,
}

impl Server {
    pub open spec fn sv(&self) -> ServerV {
        ServerV { server: self.server@, dir: self.dir@, instance: self.instance }
    }
}

pub open spec fn servers_v(s: Seq<Server>) -> Seq<ServerV> {
    Seq::new(s.len(), |i: int| s[i].sv())
}

/// A path joined with a separator; an empty prefix stands for itself.
pub open spec fn join_path(prefix: Seq<u8>, name: Seq<u8>) -> Seq<u8> {
    if prefix.len() == 0 {
        name
    } else {
        prefix + seq![47u8] + name
    }
}

/// Join a directory prefix and a name.
pub fn join_path_exec(prefix: &Vec<u8>, name: &Vec<u8>) -> (r: Vec<u8>)
    ensures
        r@ == join_path(prefix@, name@),
{
    if prefix.len() == 0 {
        clone_bytes(name)
    } else {
        let mut out = clone_bytes(prefix);
        out.push(47);
        crate::bytestr::append_bytes(&mut out, name);
        proof {
            assert(out@ =~= prefix@ + seq![47u8] + name@);
        }
        out
    }
}

/// What flattening one configured entry yields: a leaf becomes one server,
/// in the group directory (or its own, named after it); a group flattens
/// each child under the group's directory, in order.
pub open spec fn flatten_dir_spec(
    server: Seq<u8>,
    prefix: Seq<u8>,
    d: InstanceDirectory,
    use_dirs: bool,
) -> Seq<ServerV>
    decreases d,
{
    match d {
        InstanceDirectory::Leaf(inst) => seq![
            ServerV {
                server: server,
                dir: if use_dirs {
                    join_path(prefix, server)
                } else {
                    prefix
                },
                instance: inst,
            },
        ],
        InstanceDirectory::Parent(children) => flatten_children_spec(
            children@,
            join_path(prefix, server),
            use_dirs,
        ),
    }
}

pub open spec fn flatten_children_spec(
    cs: Seq<(Vec<u8>, InstanceDirectory)>,
    prefix: Seq<u8>,
    use_dirs: bool,
) -> Seq<ServerV>
    decreases cs,
{
    if cs.len() == 0 {
        Seq::empty()
    } else {
        flatten_dir_spec(cs.first().0@, prefix, cs.first().1, use_dirs) + flatten_children_spec(
            cs.drop_first(),
            prefix,
            use_dirs,
        )
    }
}

/// Flatten one configured entry into `output`; see `flatten_dir_spec`.
pub fn flatten_servers_helper(
    output: &mut Vec<Server>,
    server: Vec<u8>,
    prefix: Vec<u8>,
    instance_dir: InstanceDirectory,
    use_server_name_directories: bool,
)
    ensures
        servers_v(final(output)@) == servers_v(old(output)@) + flatten_dir_spec(
            server@,
            prefix@,
            instance_dir,
            use_server_name_directories,
        ),
    decreases instance_dir,
{
    let ghost gd = instance_dir;
    match instance_dir {
        InstanceDirectory::Leaf(instance) => {
            let dir = if use_server_name_directories {
                join_path_exec(&prefix, &server)
            } else {
                clone_bytes(&prefix)
            };
            let s = Server { server, dir, instance };
            proof {
                assert(servers_v(output@.push(s)) =~= servers_v(output@) + flatten_dir_spec(
                    s.server@,
                    prefix@,
                    gd,
                    use_server_name_directories,
                ));
            }
            output.push(s);
        },
        InstanceDirectory::Parent(children) => {
            let new_prefix = join_path_exec(&prefix, &server);
            let ghost orig = children@;
            let ghost base = output@;
            let ghost mut k: int = 0;
            let mut children = children;
            proof {
                assert(servers_v(output@) + flatten_children_spec(
                    children@,
                    new_prefix@,
                    use_server_name_directories,
                ) =~= servers_v(base) + flatten_children_spec(
                    orig,
                    new_prefix@,
                    use_server_name_directories,
                ));
                assert(children@ =~= orig.subrange(0, orig.len() as int));
            }
            while children.len() > 0
                invariant
                    0 <= k,
                    k + children@.len() == orig.len(),
                    children@ == orig.subrange(k, orig.len() as int),
                    gd == instance_dir,
                    gd is Parent,
                    orig == gd->Parent_0@,
                    servers_v(output@) + flatten_children_spec(
                        children@,
                        new_prefix@,
                        use_server_name_directories,
                    ) == servers_v(base) + flatten_children_spec(
                        orig,
                        new_prefix@,
                        use_server_name_directories,
                    ),
                decreases children@.len(),
            {
                let ghost pre = children@;
                let (name, child) = children.remove(0);
                proof {
                    assert(pre.remove(0) =~= pre.drop_first());
                    assert(pre.first() == (name, child));
                    assert(pre.drop_first() =~= orig.subrange(k + 1, orig.len() as int));
                    assert(pre.first() == orig[k]);
                    assert(decreases_to!(gd => gd->Parent_0));
                    assert(decreases_to!(gd->Parent_0 => gd->Parent_0@));
                    assert(decreases_to!(gd->Parent_0@ => gd->Parent_0@[k]));
                    assert(decreases_to!(gd->Parent_0@[k] => gd->Parent_0@[k].1));
                    assert(child == gd->Parent_0@[k].1);
                    assert(decreases_to!(gd => child));
                    k = k + 1;
                }
                let ghost mid = output@;
                flatten_servers_helper(
                    output,
                    name,
                    clone_bytes(&new_prefix),
                    child,
                    use_server_name_directories,
                );
                proof {
                    assert(servers_v(output@) + flatten_children_spec(
                        children@,
                        new_prefix@,
                        use_server_name_directories,
                    ) =~= servers_v(mid) + (flatten_dir_spec(
                        pre.first().0@,
                        new_prefix@,
                        pre.first().1,
                        use_server_name_directories,
                    ) + flatten_children_spec(
                        pre.drop_first(),
                        new_prefix@,
                        use_server_name_directories,
                    )));
                }
            }
            proof {
                assert(children@ =~= Seq::<(Vec<u8>, InstanceDirectory)>::empty());
                assert(servers_v(output@) + flatten_children_spec(
                    children@,
                    new_prefix@,
                    use_server_name_directories,
                ) =~= servers_v(output@));
            }
        },
    }
}

impl Settings {
    /// Flatten every configured server group into a flat list, each entry
    /// carrying its save directory under `root`.
    pub fn flatten_servers(self, root: Vec<u8>) -> (r: Vec<Server>)
        ensures
            servers_v(r@) == flatten_children_spec(
                self.servers@,
                root@,
                self.use_server_name_directories,
            ),
    {
        let Settings { concurrent_requests: _, use_server_name_directories, servers } = self;
        let ghost orig = servers@;
        let mut servers = servers;
        let mut out: Vec<Server> = Vec::new();
        proof {
            assert(servers_v(out@) =~= Seq::<ServerV>::empty());
            assert(servers_v(out@) + flatten_children_spec(
                servers@,
                root@,
                use_server_name_directories,
            ) =~= flatten_children_spec(orig, root@, use_server_name_directories));
        }
        while servers.len() > 0
            invariant
                servers_v(out@) + flatten_children_spec(
                    servers@,
                    root@,
                    use_server_name_directories,
                ) == flatten_children_spec(orig, root@, use_server_name_directories),
            decreases servers@.len(),
        {
            let ghost pre = servers@;
            let (name, dir) = servers.remove(0);
            proof {
                assert(pre.remove(0) =~= pre.drop_first());
                assert(pre.first() == (name, dir));
            }
            let ghost mid = out@;
            flatten_servers_helper(
                &mut out,
                name,
                clone_bytes(&root),
                dir,
                use_server_name_directories,
            );
            proof {
                assert(servers_v(out@) + flatten_children_spec(
                    servers@,
                    root@,
                    use_server_name_directories,
                ) =~= servers_v(mid) + (flatten_dir_spec(
                    pre.first().0@,
                    root@,
                    pre.first().1,
                    use_server_name_directories,
                ) + flatten_children_spec(
                    pre.drop_first(),
                    root@,
                    use_server_name_directories,
                )));
            }
        }
        proof {
            assert(servers@ =~= Seq::<(Vec<u8>, InstanceDirectory)>::empty());
            assert(servers_v(out@) + flatten_children_spec(
                servers@,
                root@,
                use_server_name_directories,
            ) =~= servers_v(out@));
        }
        out
    }
}

} // verus!
