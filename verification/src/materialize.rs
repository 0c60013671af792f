//! The tree materializer: a single depth-first pass over an in-memory
//! template tree that applies the inclusion policy and the substitution
//! engine to every file and directory name and yields the output tree as a
//! value. Reading the template tree in, and writing the output to disk, is
//! the caller's side of the boundary.

use vstd::prelude::*;
use vstd::utf8::{decode_utf8, encode_utf8, valid_utf8};

use crate::context::{flag_map, text_map, ContextValue, RenderContext};
use crate::errors::ScaffoldError;
use crate::policy::{decide_file, opt_meta, should_prune_dir, spec_decide_file, spec_prune_dir};
use crate::render::{decode_utf8_bytes, render_template_text, rendered_of};
use crate::strutil::{is_blank, str_eq, str_is_blank};
use crate::types::TemplateMetadata;

verus! {

/// One file of a template tree: its name, raw bytes, and the source
/// permission bit the tree loader observed.
#[derive(Debug, PartialEq, Eq)]
pub struct FileNode {
    pub name: String,
    pub content: Vec<u8>,
    pub executable: bool,
}

/// One directory of a template tree.
#[derive(Debug, PartialEq, Eq)]
pub struct DirNode {
    pub name: String,
    pub files: Vec<FileNode>,
    pub dirs: Vec<DirNode>,
}

/// One file of the output tree: its path relative to the output root, its
/// bytes, and whether it is to be marked executable.
#[derive(Debug, PartialEq, Eq)]
pub struct OutputFile {
    pub path: String,
    pub content: Vec<u8>,
    pub executable: bool,
}

/// The materialized result: the directories to create (relative to the
/// output root; the empty path is the root itself) and the files to write,
/// in walk order.
#[derive(Debug, PartialEq, Eq)]
pub struct OutputTree {
    pub dirs: Vec<String>,
    pub files: Vec<OutputFile>,
}

/// The mathematical image of one output file.
pub struct OutFileV {
    pub path: Seq<char>,
    pub content: Seq<u8>,
    pub executable: bool,
}

/// The mathematical image of a materialized tree.
pub struct MatOut {
    pub dirs: Seq<Seq<char>>,
    pub files: Seq<OutFileV>,
}

impl View for OutputFile {
    type V = OutFileV;

    open spec fn view(&self) -> OutFileV {
        OutFileV { path: self.path@, content: self.content@, executable: self.executable }
    }
}

pub open spec fn out_files_view(s: Seq<OutputFile>) -> Seq<OutFileV> {
    s.map_values(|o: OutputFile| o@)
}

pub open spec fn out_dirs_view(s: Seq<String>) -> Seq<Seq<char>> {
    s.map_values(|d: String| d@)
}

impl View for OutputTree {
    type V = MatOut;

    open spec fn view(&self) -> MatOut {
        MatOut { dirs: out_dirs_view(self.dirs@), files: out_files_view(self.files@) }
    }
}

/// Paths joined with `/`; a child of the root keeps its bare name.
pub open spec fn joined(prefix: Seq<char>, name: Seq<char>) -> Seq<char> {
    if prefix.len() == 0 {
        name
    } else {
        prefix + seq!['/'] + name
    }
}

/// `joined`, executably.
pub fn join_path(prefix: &str, name: &str) -> (r: String)
    ensures
        r@ == joined(prefix@, name@),
{
    if prefix.unicode_len() == 0 {
        name.to_owned()
    } else {
        let mut out = prefix.to_owned();
        out.append("/");
        out.append(name);
        proof {
            reveal_strlit("/");
            assert("/"@ =~= seq!['/']);
        }
        out
    }
}

/// What becomes of one file: `None` when rendering fails and the whole run
/// aborts; `Some(None)` when the file is left out; `Some(Some(..))` when a
/// file is written. The configuration document itself is never copied;
/// excluded files are dropped; a kept file's name is substituted when the
/// policy says so; content that fails UTF-8 decoding is copied
/// byte-for-byte whatever the policy says; templated text whose rendering
/// is entirely whitespace drops the file; all other text is copied
/// unchanged.
pub open spec fn spec_process_file(
    f: FileNode,
    meta: Option<TemplateMetadata>,
    entries: Seq<(String, ContextValue)>,
    src_rel: Seq<char>,
    out_dir: Seq<char>,
) -> Option<Option<OutFileV>> {
    let strs = text_map(entries);
    let flags = flag_map(entries);
    if f.name@ == "template.toml"@ {
        Some(None)
    } else {
        let d = spec_decide_file(meta, src_rel, f.name@, entries, f.executable);
        if !d.included {
            Some(None)
        } else {
            let out_name = if d.template_filename {
                rendered_of(f.name@, strs, flags)
            } else {
                Some(f.name@)
            };
            match out_name {
                None => None,
                Some(oname) => {
                    if !valid_utf8(f.content@) {
                        Some(
                            Some(
                                OutFileV {
                                    path: joined(out_dir, oname),
                                    content: f.content@,
                                    executable: d.executable,
                                },
                            ),
                        )
                    } else if d.template_content {
                        match rendered_of(decode_utf8(f.content@), strs, flags) {
                            None => None,
                            Some(rend) => {
                                if is_blank(rend) {
                                    Some(None)
                                } else {
                                    Some(
                                        Some(
                                            OutFileV {
                                                path: joined(out_dir, oname),
                                                content: encode_utf8(rend),
                                                executable: d.executable,
                                            },
                                        ),
                                    )
                                }
                            },
                        }
                    } else {
                        Some(
                            Some(
                                OutFileV {
                                    path: joined(out_dir, oname),
                                    content: f.content@,
                                    executable: d.executable,
                                },
                            ),
                        )
                    }
                },
            }
        }
    }
}

/// What becomes of the files `fs[i..]` of one directory, in order.
pub open spec fn spec_process_files(
    fs: Seq<FileNode>,
    i: int,
    meta: Option<TemplateMetadata>,
    entries: Seq<(String, ContextValue)>,
    src_dir: Seq<char>,
    out_dir: Seq<char>,
) -> Option<Seq<OutFileV>>
    decreases fs.len() - i,
{
    if i < 0 || i >= fs.len() {
        Some(Seq::empty())
    } else {
        match spec_process_file(fs[i], meta, entries, joined(src_dir, fs[i].name@), out_dir) {
            None => None,
            Some(of) => {
                match spec_process_files(fs, i + 1, meta, entries, src_dir, out_dir) {
                    None => None,
                    Some(rest) => Some(
                        match of {
                            Some(o) => seq![o] + rest,
                            None => rest,
                        },
                    ),
                }
            },
        }
    }
}

/// What becomes of one whole directory: its own entry, its files, then its
/// subdirectories, depth first.
pub open spec fn spec_mat_dir(
    d: DirNode,
    meta: Option<TemplateMetadata>,
    entries: Seq<(String, ContextValue)>,
    src_rel: Seq<char>,
    out_dir: Seq<char>,
    at_root: bool,
) -> Option<MatOut>
    decreases d, 1int,
{
    match spec_process_files(d.files@, 0, meta, entries, src_rel, out_dir) {
        None => None,
        Some(fs) => {
            match spec_mat_subdirs(d.dirs@, 0, meta, entries, src_rel, out_dir, at_root) {
                None => None,
                Some(sub) => Some(MatOut { dirs: seq![out_dir] + sub.dirs, files: fs + sub.files }),
            }
        },
    }
}

/// What becomes of the subdirectories `ds[i..]`: one dropped whole by the
/// minimal-mode rule contributes nothing; otherwise its name is substituted
/// and it is walked in turn.
pub open spec fn spec_mat_subdirs(
    ds: Seq<DirNode>,
    i: int,
    meta: Option<TemplateMetadata>,
    entries: Seq<(String, ContextValue)>,
    src_rel: Seq<char>,
    out_dir: Seq<char>,
    at_root: bool,
) -> Option<MatOut>
    decreases ds, ds.len() - i,
{
    if i < 0 || i >= ds.len() {
        Some(MatOut { dirs: Seq::empty(), files: Seq::empty() })
    } else {
        let d0 = ds[i];
        let head: Option<MatOut> = if spec_prune_dir(meta, d0.name@, at_root, entries) {
            Some(MatOut { dirs: Seq::empty(), files: Seq::empty() })
        } else {
            match rendered_of(d0.name@, text_map(entries), flag_map(entries)) {
                None => None,
                Some(oname) => spec_mat_dir(
                    d0,
                    meta,
                    entries,
                    joined(src_rel, d0.name@),
                    joined(out_dir, oname),
                    false,
                ),
            }
        };
        match head {
            None => None,
            Some(h) => {
                match spec_mat_subdirs(ds, i + 1, meta, entries, src_rel, out_dir, at_root) {
                    None => None,
                    Some(t) => Some(MatOut { dirs: h.dirs + t.dirs, files: h.files + t.files }),
                }
            },
        }
    }
}

/// What materializing a whole template tree produces: `None` exactly when
/// some rendering fails, else every directory and file of the output.
pub open spec fn spec_materialize(
    root: DirNode,
    meta: Option<TemplateMetadata>,
    entries: Seq<(String, ContextValue)>,
) -> Option<MatOut> {
    spec_mat_dir(root, meta, entries, Seq::empty(), Seq::empty(), true)
}

/// Law: with no configuration document, a text file (by the built-in
/// name-and-extension heuristic) goes through variable substitution: what
/// is written is the rendering of its decoded content, under its rendered
/// name, with its own permission bit.
pub proof fn lemma_no_config_text_rendered(
    f: FileNode,
    entries: Seq<(String, ContextValue)>,
    src_rel: Seq<char>,
    out_dir: Seq<char>,
)
    requires
        f.name@ != "template.toml"@,
        crate::policy::spec_text_by_heuristic(f.name@),
        valid_utf8(f.content@),
        rendered_of(f.name@, text_map(entries), flag_map(entries)) is Some,
        rendered_of(decode_utf8(f.content@), text_map(entries), flag_map(entries)) is Some,
        !is_blank(rendered_of(decode_utf8(f.content@), text_map(entries), flag_map(entries))->Some_0),
    ensures
        spec_process_file(f, None, entries, src_rel, out_dir) == Some(
            Some(
                OutFileV {
                    path: joined(
                        out_dir,
                        rendered_of(f.name@, text_map(entries), flag_map(entries))->Some_0,
                    ),
                    content: encode_utf8(
                        rendered_of(
                            decode_utf8(f.content@),
                            text_map(entries),
                            flag_map(entries),
                        )->Some_0,
                    ),
                    executable: f.executable,
                },
            ),
        ),
{
}

/// Law: with no configuration document, a file the heuristic does not call
/// text is copied byte-identical under its own, unsubstituted name.
pub proof fn lemma_no_config_other_copied(
    f: FileNode,
    entries: Seq<(String, ContextValue)>,
    src_rel: Seq<char>,
    out_dir: Seq<char>,
)
    requires
        f.name@ != "template.toml"@,
        !crate::policy::spec_text_by_heuristic(f.name@),
    ensures
        spec_process_file(f, None, entries, src_rel, out_dir) == Some(
            Some(
                OutFileV {
                    path: joined(out_dir, f.name@),
                    content: f.content@,
                    executable: f.executable,
                },
            ),
        ),
{
}

/// Law: a templated file whose rendered content is entirely whitespace is
/// never written; processing it yields no output file.
pub proof fn lemma_blank_rendering_drops_file(
    f: FileNode,
    meta: Option<TemplateMetadata>,
    entries: Seq<(String, ContextValue)>,
    src_rel: Seq<char>,
    out_dir: Seq<char>,
)
    requires
        spec_decide_file(meta, src_rel, f.name@, entries, f.executable).template_content,
        valid_utf8(f.content@),
        rendered_of(decode_utf8(f.content@), text_map(entries), flag_map(entries)) is Some,
        is_blank(rendered_of(decode_utf8(f.content@), text_map(entries), flag_map(entries))->Some_0),
    ensures
        !(spec_process_file(f, meta, entries, src_rel, out_dir) matches Some(Some(_))),
{
}

/// Law: content that fails UTF-8 decoding comes out byte-identical
/// whenever a file is written at all, whatever the template flags say.
pub proof fn lemma_binary_round_trip(
    f: FileNode,
    meta: Option<TemplateMetadata>,
    entries: Seq<(String, ContextValue)>,
    src_rel: Seq<char>,
    out_dir: Seq<char>,
)
    requires
        !valid_utf8(f.content@),
    ensures
        spec_process_file(f, meta, entries, src_rel, out_dir) matches Some(Some(o)) ==> o.content
            == f.content@,
{
}

/// Law: materializing is deterministic; one tree, context, and
/// configuration admit one output, so two runs into fresh directories
/// agree byte for byte.
pub proof fn lemma_materialize_deterministic(
    root: DirNode,
    meta: Option<TemplateMetadata>,
    entries: Seq<(String, ContextValue)>,
    r1: MatOut,
    r2: MatOut,
)
    requires
        spec_materialize(root, meta, entries) == Some(r1),
        spec_materialize(root, meta, entries) == Some(r2),
    ensures
        r1 == r2,
{
}

/// Whether some source file's processing yields exactly this output file.
pub open spec fn from_some_file(
    o: OutFileV,
    meta: Option<TemplateMetadata>,
    entries: Seq<(String, ContextValue)>,
) -> bool {
    exists|f: FileNode, frel: Seq<char>, fdir: Seq<char>|
        spec_process_file(f, meta, entries, frel, fdir) == Some(Some(o))
}

proof fn lemma_files_processed(
    fs: Seq<FileNode>,
    i: int,
    meta: Option<TemplateMetadata>,
    entries: Seq<(String, ContextValue)>,
    src_dir: Seq<char>,
    out_dir: Seq<char>,
)
    requires
        spec_process_files(fs, i, meta, entries, src_dir, out_dir) is Some,
    ensures
        forall|k: int|
            0 <= k < spec_process_files(fs, i, meta, entries, src_dir, out_dir)->Some_0.len()
                ==> from_some_file(
                #[trigger] spec_process_files(fs, i, meta, entries, src_dir, out_dir)->Some_0[k],
                meta,
                entries,
            ),
    decreases fs.len() - i,
{
    if i < 0 || i >= fs.len() {
    } else {
        lemma_files_processed(fs, i + 1, meta, entries, src_dir, out_dir);
        let res = spec_process_files(fs, i, meta, entries, src_dir, out_dir)->Some_0;
        let rest = spec_process_files(fs, i + 1, meta, entries, src_dir, out_dir)->Some_0;
        let of = spec_process_file(fs[i], meta, entries, joined(src_dir, fs[i].name@), out_dir);
        assert forall|k: int| 0 <= k < res.len() implies from_some_file(
            #[trigger] res[k],
            meta,
            entries,
        ) by {
            match of->Some_0 {
                Some(o) => {
                    if k == 0 {
                        assert(res[0] == o);
                        assert(spec_process_file(
                            fs[i],
                            meta,
                            entries,
                            joined(src_dir, fs[i].name@),
                            out_dir,
                        ) == Some(Some(o)));
                    } else {
                        assert(res[k] == rest[k - 1]);
                    }
                },
                None => {
                    assert(res[k] == rest[k]);
                },
            }
        }
    }
}

proof fn lemma_mat_dir_files_processed(
    d: DirNode,
    meta: Option<TemplateMetadata>,
    entries: Seq<(String, ContextValue)>,
    src_rel: Seq<char>,
    out_dir: Seq<char>,
    at_root: bool,
)
    requires
        spec_mat_dir(d, meta, entries, src_rel, out_dir, at_root) is Some,
    ensures
        forall|k: int|
            0 <= k < spec_mat_dir(d, meta, entries, src_rel, out_dir, at_root)->Some_0.files.len()
                ==> from_some_file(
                #[trigger] spec_mat_dir(
                    d,
                    meta,
                    entries,
                    src_rel,
                    out_dir,
                    at_root,
                )->Some_0.files[k],
                meta,
                entries,
            ),
    decreases d, 1int,
{
    lemma_files_processed(d.files@, 0, meta, entries, src_rel, out_dir);
    lemma_mat_subdirs_files_processed(d.dirs@, 0, meta, entries, src_rel, out_dir, at_root);
    let own = spec_process_files(d.files@, 0, meta, entries, src_rel, out_dir)->Some_0;
    let sub = spec_mat_subdirs(d.dirs@, 0, meta, entries, src_rel, out_dir, at_root)->Some_0;
    let all = spec_mat_dir(d, meta, entries, src_rel, out_dir, at_root)->Some_0.files;
    assert forall|k: int| 0 <= k < all.len() implies from_some_file(
        #[trigger] all[k],
        meta,
        entries,
    ) by {
        if k < own.len() {
            assert(all[k] == own[k]);
        } else {
            assert(all[k] == sub.files[k - own.len()]);
        }
    }
}

proof fn lemma_mat_subdirs_files_processed(
    ds: Seq<DirNode>,
    i: int,
    meta: Option<TemplateMetadata>,
    entries: Seq<(String, ContextValue)>,
    src_rel: Seq<char>,
    out_dir: Seq<char>,
    at_root: bool,
)
    requires
        spec_mat_subdirs(ds, i, meta, entries, src_rel, out_dir, at_root) is Some,
    ensures
        forall|k: int|
            0 <= k < spec_mat_subdirs(
                ds,
                i,
                meta,
                entries,
                src_rel,
                out_dir,
                at_root,
            )->Some_0.files.len() ==> from_some_file(
                #[trigger] spec_mat_subdirs(
                    ds,
                    i,
                    meta,
                    entries,
                    src_rel,
                    out_dir,
                    at_root,
                )->Some_0.files[k],
                meta,
                entries,
            ),
    decreases ds, ds.len() - i,
{
    if i < 0 || i >= ds.len() {
    } else {
        let d0 = ds[i];
        let pruned = spec_prune_dir(meta, d0.name@, at_root, entries);
        if !pruned {
            match rendered_of(d0.name@, text_map(entries), flag_map(entries)) {
                None => {},
                Some(oname) => {
                    lemma_mat_dir_files_processed(
                        d0,
                        meta,
                        entries,
                        joined(src_rel, d0.name@),
                        joined(out_dir, oname),
                        false,
                    );
                },
            }
        }
        lemma_mat_subdirs_files_processed(ds, i + 1, meta, entries, src_rel, out_dir, at_root);
        let all = spec_mat_subdirs(ds, i, meta, entries, src_rel, out_dir, at_root)->Some_0.files;
        let t = spec_mat_subdirs(ds, i + 1, meta, entries, src_rel, out_dir, at_root)->Some_0;
        let h: MatOut = if pruned {
            MatOut { dirs: Seq::empty(), files: Seq::empty() }
        } else {
            spec_mat_dir(
                d0,
                meta,
                entries,
                joined(src_rel, d0.name@),
                joined(
                    out_dir,
                    rendered_of(d0.name@, text_map(entries), flag_map(entries))->Some_0,
                ),
                false,
            )->Some_0
        };
        assert forall|k: int| 0 <= k < all.len() implies from_some_file(
            #[trigger] all[k],
            meta,
            entries,
        ) by {
            if k < h.files.len() {
                assert(all[k] == h.files[k]);
            } else {
                assert(all[k] == t.files[k - h.files.len()]);
            }
        }
    }
}

/// Law: every file of a materialized tree is what the per-file processing
/// of some source file yields; nothing else is ever written. Together with
/// the blank-rendering and binary laws this carries their per-file claims
/// to whole output trees.
pub proof fn lemma_output_only_from_processing(
    root: DirNode,
    meta: Option<TemplateMetadata>,
    entries: Seq<(String, ContextValue)>,
    mo: MatOut,
    k: int,
)
    requires
        spec_materialize(root, meta, entries) == Some(mo),
        0 <= k < mo.files.len(),
    ensures
        from_some_file(mo.files[k], meta, entries),
{
    lemma_mat_dir_files_processed(root, meta, entries, Seq::empty(), Seq::empty(), true);
    assert(mo == spec_mat_dir(root, meta, entries, Seq::empty(), Seq::empty(), true)->Some_0);
    assert(from_some_file(
        spec_mat_dir(root, meta, entries, Seq::empty(), Seq::empty(), true)->Some_0.files[k],
        meta,
        entries,
    ));
}

/// Processes one file into `out.files`.
fn process_one_file(
    f: &FileNode,
    metadata: Option<&TemplateMetadata>,
    ctx: &RenderContext,
    src_dir: &str,
    out_dir: &str,
    out: &mut OutputTree,
) -> (r: Result<(), ScaffoldError>)
    ensures
        match r {
            Ok(()) => {
                &&& spec_process_file(
                    *f,
                    opt_meta(metadata),
                    ctx.entries@,
                    joined(src_dir@, f.name@),
                    out_dir@,
                ) matches Some(of)
                &&& final(out).dirs@ == old(out).dirs@
                &&& out_files_view(final(out).files@) == out_files_view(old(out).files@) + (
                match of {
                    Some(o) => seq![o],
                    None => Seq::<OutFileV>::empty(),
                })
            },
            Err(e) => {
                &&& spec_process_file(
                    *f,
                    opt_meta(metadata),
                    ctx.entries@,
                    joined(src_dir@, f.name@),
                    out_dir@,
                ) is None
                &&& e == ScaffoldError::RenderFailed
                &&& *final(out) == *old(out)
            },
        },
{
    let ghost pre = *out;
    if str_eq(f.name.as_str(), "template.toml") {
        proof {
            assert(out_files_view(out.files@) =~= out_files_view(pre.files@)
                + Seq::<OutFileV>::empty());
        }
        return Ok(());
    }
    let src_rel = join_path(src_dir, f.name.as_str());
    let d = decide_file(metadata, src_rel.as_str(), f.name.as_str(), ctx, f.executable);
    if !d.included {
        proof {
            assert(out_files_view(out.files@) =~= out_files_view(pre.files@)
                + Seq::<OutFileV>::empty());
        }
        return Ok(());
    }
    let out_name: String = if d.template_filename {
        match render_template_text(f.name.as_str(), ctx) {
            Some(n) => n,
            None => {
                return Err(ScaffoldError::RenderFailed);
            },
        }
    } else {
        f.name.as_str().to_owned()
    };
    let out_path = join_path(out_dir, out_name.as_str());
    match decode_utf8_bytes(&f.content) {
        None => {
            let o = OutputFile { path: out_path, content: f.content.clone(), executable: d.executable };
            let ghost ov = o@;
            out.files.push(o);
            proof {
                assert(out_files_view(out.files@) =~= out_files_view(pre.files@) + seq![ov]);
            }
            Ok(())
        },
        Some(text) => {
            if d.template_content {
                match render_template_text(text.as_str(), ctx) {
                    None => Err(ScaffoldError::RenderFailed),
                    Some(rendered) => {
                        if str_is_blank(rendered.as_str()) {
                            proof {
                                assert(out_files_view(out.files@) =~= out_files_view(pre.files@)
                                    + Seq::<OutFileV>::empty());
                            }
                            Ok(())
                        } else {
                            let o = OutputFile {
                                path: out_path,
                                content: rendered.as_str().as_bytes_vec(),
                                executable: d.executable,
                            };
                            let ghost ov = o@;
                            out.files.push(o);
                            proof {
                                assert(out_files_view(out.files@) =~= out_files_view(pre.files@)
                                    + seq![ov]);
                            }
                            Ok(())
                        }
                    },
                }
            } else {
                let o = OutputFile { path: out_path, content: f.content.clone(), executable: d.executable };
                let ghost ov = o@;
                out.files.push(o);
                proof {
                    assert(out_files_view(out.files@) =~= out_files_view(pre.files@) + seq![ov]);
                }
                Ok(())
            }
        },
    }
}

/// Walks one directory: records it, processes its files, then its
/// subdirectories. On failure some prefix of the output stands; nothing is
/// rolled back.
#[verifier::loop_isolation(false)]
fn materialize_dir(
    d: &DirNode,
    metadata: Option<&TemplateMetadata>,
    ctx: &RenderContext,
    src_rel: &str,
    out_dir: &str,
    at_root: bool,
    out: &mut OutputTree,
) -> (r: Result<(), ScaffoldError>)
    ensures
        match r {
            Ok(()) => {
                &&& spec_mat_dir(
                    *d,
                    opt_meta(metadata),
                    ctx.entries@,
                    src_rel@,
                    out_dir@,
                    at_root,
                ) matches Some(mo)
                &&& out_dirs_view(final(out).dirs@) == out_dirs_view(old(out).dirs@) + mo.dirs
                &&& out_files_view(final(out).files@) == out_files_view(old(out).files@) + mo.files
            },
            Err(e) => {
                &&& spec_mat_dir(*d, opt_meta(metadata), ctx.entries@, src_rel@, out_dir@, at_root)
                    is None
                &&& e == ScaffoldError::RenderFailed
            },
        },
    decreases *d,
{
    let ghost meta_v = opt_meta(metadata);
    let ghost entries = ctx.entries@;
    let ghost pre = *out;
    out.dirs.push(out_dir.to_owned());
    proof {
        assert(out_dirs_view(out.dirs@) =~= out_dirs_view(pre.dirs@) + seq![out_dir@]);
    }

    let nf = d.files.len();
    let mut i: usize = 0;
    let ghost mut facc: Seq<OutFileV> = Seq::empty();
    proof {
        assert(out_files_view(out.files@) =~= out_files_view(pre.files@) + facc);
    }
    while i < nf
        invariant
            0 <= i <= nf,
            nf == d.files@.len(),
            out_dirs_view(out.dirs@) == out_dirs_view(pre.dirs@) + seq![out_dir@],
            out_files_view(out.files@) == out_files_view(pre.files@) + facc,
            match spec_process_files(d.files@, i as int, meta_v, entries, src_rel@, out_dir@) {
                Some(rest) => spec_process_files(d.files@, 0, meta_v, entries, src_rel@, out_dir@)
                    == Some(facc + rest),
                None => spec_process_files(d.files@, 0, meta_v, entries, src_rel@, out_dir@)
                    is None,
            },
        decreases nf - i,
    {
        let ghost files_before = out_files_view(out.files@);
        let res = process_one_file(&d.files[i], metadata, ctx, src_rel, out_dir, out);
        match res {
            Ok(()) => {
                proof {
                    let of = spec_process_file(
                        d.files@[i as int],
                        meta_v,
                        entries,
                        joined(src_rel@, d.files@[i as int].name@),
                        out_dir@,
                    )->Some_0;
                    let piece: Seq<OutFileV> = match of {
                        Some(o) => seq![o],
                        None => Seq::empty(),
                    };
                    assert(out_files_view(out.files@) == files_before + piece);
                    assert(out_files_view(out.files@) =~= out_files_view(pre.files@) + (facc
                        + piece));
                    match spec_process_files(d.files@, i as int + 1, meta_v, entries, src_rel@,
                        out_dir@) {
                        Some(rest) => {
                            assert(spec_process_files(d.files@, i as int, meta_v, entries,
                                src_rel@, out_dir@) == Some(piece + rest));
                            assert(facc + (piece + rest) =~= (facc + piece) + rest);
                        },
                        None => {
                            assert(spec_process_files(d.files@, i as int, meta_v, entries,
                                src_rel@, out_dir@) is None);
                        },
                    }
                    facc = facc + piece;
                }
            },
            Err(e) => {
                proof {
                    assert(spec_process_files(d.files@, i as int, meta_v, entries, src_rel@,
                        out_dir@) is None);
                }
                return Err(e);
            },
        }
        i = i + 1;
    }
    proof {
        assert(spec_process_files(d.files@, nf as int, meta_v, entries, src_rel@, out_dir@)
            == Some(Seq::<OutFileV>::empty()));
        assert(facc + Seq::<OutFileV>::empty() =~= facc);
        assert(spec_process_files(d.files@, 0, meta_v, entries, src_rel@, out_dir@) == Some(facc));
    }

    let nd = d.dirs.len();
    let mut j: usize = 0;
    let ghost mut dacc: Seq<Seq<char>> = Seq::empty();
    let ghost mut dfacc: Seq<OutFileV> = Seq::empty();
    proof {
        assert(out_dirs_view(out.dirs@) =~= out_dirs_view(pre.dirs@) + seq![out_dir@] + dacc);
        assert(out_files_view(out.files@) =~= out_files_view(pre.files@) + facc + dfacc);
    }
    while j < nd
        invariant
            0 <= j <= nd,
            nd == d.dirs@.len(),
            out_dirs_view(out.dirs@) == out_dirs_view(pre.dirs@) + seq![out_dir@] + dacc,
            out_files_view(out.files@) == out_files_view(pre.files@) + facc + dfacc,
            spec_process_files(d.files@, 0, meta_v, entries, src_rel@, out_dir@) == Some(facc),
            match spec_mat_subdirs(d.dirs@, j as int, meta_v, entries, src_rel@, out_dir@, at_root) {
                Some(t) => spec_mat_subdirs(d.dirs@, 0, meta_v, entries, src_rel@, out_dir@, at_root)
                    == Some(MatOut { dirs: dacc + t.dirs, files: dfacc + t.files }),
                None => spec_mat_subdirs(d.dirs@, 0, meta_v, entries, src_rel@, out_dir@, at_root)
                    is None,
            },
        decreases nd - j,
    {
        let child = &d.dirs[j];
        if should_prune_dir(metadata, child.name.as_str(), at_root, ctx) {
            proof {
                match spec_mat_subdirs(d.dirs@, j as int + 1, meta_v, entries, src_rel@, out_dir@,
                    at_root) {
                    Some(t) => {
                        assert(spec_mat_subdirs(d.dirs@, j as int, meta_v, entries, src_rel@,
                            out_dir@, at_root) == Some(
                            MatOut {
                                dirs: Seq::<Seq<char>>::empty() + t.dirs,
                                files: Seq::<OutFileV>::empty() + t.files,
                            },
                        ));
                        assert(Seq::<Seq<char>>::empty() + t.dirs =~= t.dirs);
                        assert(Seq::<OutFileV>::empty() + t.files =~= t.files);
                        assert(dacc + (Seq::<Seq<char>>::empty() + t.dirs) =~= dacc + t.dirs);
                        assert(dfacc + (Seq::<OutFileV>::empty() + t.files) =~= dfacc + t.files);
                    },
                    None => {},
                }
            }
        } else {
            match render_template_text(child.name.as_str(), ctx) {
                None => {
                    proof {
                        assert(spec_mat_subdirs(d.dirs@, j as int, meta_v, entries, src_rel@,
                            out_dir@, at_root) is None);
                    }
                    return Err(ScaffoldError::RenderFailed);
                },
                Some(oname) => {
                    let sub_src = join_path(src_rel, child.name.as_str());
                    let sub_out = join_path(out_dir, oname.as_str());
                    proof {
                        assert(decreases_to!(*d => d.dirs));
                        assert(decreases_to!(d.dirs => d.dirs@));
                        assert(decreases_to!(d.dirs@ => d.dirs@[j as int]));
                    }
                    let ghost dirs_before = out_dirs_view(out.dirs@);
                    let ghost files_before = out_files_view(out.files@);
                    let res = materialize_dir(
                        child,
                        metadata,
                        ctx,
                        sub_src.as_str(),
                        sub_out.as_str(),
                        false,
                        out,
                    );
                    match res {
                        Ok(()) => {
                            proof {
                                let mo = spec_mat_dir(
                                    d.dirs@[j as int],
                                    meta_v,
                                    entries,
                                    joined(src_rel@, d.dirs@[j as int].name@),
                                    joined(out_dir@, oname@),
                                    false,
                                )->Some_0;
                                assert(out_dirs_view(out.dirs@) == dirs_before + mo.dirs);
                                assert(out_files_view(out.files@) == files_before + mo.files);
                                assert(out_dirs_view(out.dirs@) =~= out_dirs_view(pre.dirs@)
                                    + seq![out_dir@] + (dacc + mo.dirs));
                                assert(out_files_view(out.files@) =~= out_files_view(pre.files@)
                                    + facc + (dfacc + mo.files));
                                match spec_mat_subdirs(d.dirs@, j as int + 1, meta_v, entries,
                                    src_rel@, out_dir@, at_root) {
                                    Some(t) => {
                                        assert(spec_mat_subdirs(d.dirs@, j as int, meta_v, entries,
                                            src_rel@, out_dir@, at_root) == Some(
                                            MatOut {
                                                dirs: mo.dirs + t.dirs,
                                                files: mo.files + t.files,
                                            },
                                        ));
                                        assert(dacc + (mo.dirs + t.dirs) =~= (dacc + mo.dirs)
                                            + t.dirs);
                                        assert(dfacc + (mo.files + t.files) =~= (dfacc + mo.files)
                                            + t.files);
                                    },
                                    None => {},
                                }
                                dacc = dacc + mo.dirs;
                                dfacc = dfacc + mo.files;
                            }
                        },
                        Err(e) => {
                            proof {
                                assert(spec_mat_subdirs(d.dirs@, j as int, meta_v, entries,
                                    src_rel@, out_dir@, at_root) is None);
                            }
                            return Err(e);
                        },
                    }
                },
            }
        }
        j = j + 1;
    }
    proof {
        assert(spec_mat_subdirs(d.dirs@, nd as int, meta_v, entries, src_rel@, out_dir@, at_root)
            == Some(MatOut { dirs: Seq::<Seq<char>>::empty(), files: Seq::<OutFileV>::empty() }));
        assert(dacc + Seq::<Seq<char>>::empty() =~= dacc);
        assert(dfacc + Seq::<OutFileV>::empty() =~= dfacc);
        assert(spec_mat_subdirs(d.dirs@, 0, meta_v, entries, src_rel@, out_dir@, at_root) == Some(
            MatOut { dirs: dacc, files: dfacc },
        ));
        let mo = spec_mat_dir(*d, meta_v, entries, src_rel@, out_dir@, at_root)->Some_0;
        assert(mo.dirs == seq![out_dir@] + dacc);
        assert(mo.files == facc + dfacc);
        assert(out_dirs_view(out.dirs@) =~= out_dirs_view(pre.dirs@) + (seq![out_dir@] + dacc));
        assert(out_files_view(out.files@) =~= out_files_view(pre.files@) + (facc + dfacc));
    }
    Ok(())
}

/// Materializes a whole template tree against the context and
/// configuration: every kept file rendered or copied as the policy says,
/// every directory name substituted, in one deterministic pass. Fails
/// exactly when some substitution pass rejects a template string.
pub fn materialize_tree(
    root: &DirNode,
    metadata: Option<&TemplateMetadata>,
    ctx: &RenderContext,
) -> (r: Result<OutputTree, ScaffoldError>)
    ensures
        match r {
            Ok(t) => spec_materialize(*root, opt_meta(metadata), ctx.entries@) == Some(t@),
            Err(e) => spec_materialize(*root, opt_meta(metadata), ctx.entries@) is None && e
                == ScaffoldError::RenderFailed,
        },
{
    let mut out = OutputTree { dirs: Vec::new(), files: Vec::new() };
    proof {
        reveal_strlit("");
        assert(""@ =~= Seq::<char>::empty());
        assert(out_dirs_view(out.dirs@) =~= Seq::<Seq<char>>::empty());
        assert(out_files_view(out.files@) =~= Seq::<OutFileV>::empty());
    }
    match materialize_dir(root, metadata, ctx, "", "", true, &mut out) {
        Ok(()) => {
            proof {
                let mo = spec_materialize(*root, opt_meta(metadata), ctx.entries@)->Some_0;
                assert(Seq::<Seq<char>>::empty() + mo.dirs =~= mo.dirs);
                assert(Seq::<OutFileV>::empty() + mo.files =~= mo.files);
            }
            Ok(out)
        },
        Err(e) => Err(e),
    }
}

} // verus!
