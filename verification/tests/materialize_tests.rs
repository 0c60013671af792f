use std::collections::HashMap;

use fuzz_init::context::{make_render_context, RenderContext};
use fuzz_init::errors::ScaffoldError;
use fuzz_init::materialize::{materialize_tree, DirNode, FileNode, OutputTree};
use fuzz_init::types::{
    FileConfig, FileConventions, HookConfig, TemplateInfo, TemplateMetadata,
};

fn text_file(name: &str, content: &str) -> FileNode {
    FileNode { name: name.to_string(), content: content.as_bytes().to_vec(), executable: false }
}

fn empty_conventions() -> FileConventions {
    FileConventions {
        always_include: vec![],
        full_mode_only: vec![],
        template_extensions: vec![],
        executable_extensions: vec![],
        no_template_extensions: vec![],
    }
}

fn meta_with(files: Vec<FileConfig>, conventions: FileConventions) -> TemplateMetadata {
    TemplateMetadata {
        template: TemplateInfo {
            name: "t".to_string(),
            description: String::new(),
            version: "1".to_string(),
        },
        variables: HashMap::new(),
        files,
        directories: vec![],
        hooks: HookConfig { post_generate: None },
        fuzzers: None,
        integrations: None,
        file_conventions: conventions,
        validation: None,
    }
}

fn widget_ctx(minimal: bool) -> RenderContext {
    make_render_context(
        "widget".to_string(),
        "widget".to_string(),
        "make".to_string(),
        minimal,
    )
}

fn find_file<'a>(tree: &'a OutputTree, path: &str) -> Option<&'a fuzz_init::materialize::OutputFile> {
    tree.files.iter().find(|f| f.path == path)
}

#[test]
fn substitutes_variables_in_text_file() {
    let root = DirNode {
        name: String::new(),
        files: vec![text_file("README.md", "# {{project_name}}\n")],
        dirs: vec![],
    };
    let out = materialize_tree(&root, None, &widget_ctx(false)).unwrap();
    let f = find_file(&out, "README.md").expect("README.md should be written");
    assert_eq!(f.content, b"# widget\n".to_vec());
}

#[test]
fn binary_file_copied_byte_identical() {
    let bytes = vec![0xffu8, 0xfe, 0x00, 0x80, 0x41];
    let root = DirNode {
        name: String::new(),
        files: vec![FileNode { name: "data.md".to_string(), content: bytes.clone(), executable: false }],
        dirs: vec![],
    };
    let out = materialize_tree(&root, None, &widget_ctx(false)).unwrap();
    let f = find_file(&out, "data.md").expect("binary file should be written");
    assert_eq!(f.content, bytes);
}

#[test]
fn binary_beats_template_override() {
    let bytes = vec![0xc3u8, 0x28, 0x00, 0x9f];
    let meta = meta_with(
        vec![FileConfig::Single {
            path: "blob.bin".to_string(),
            executable: false,
            template: true,
            condition: None,
        }],
        empty_conventions(),
    );
    let root = DirNode {
        name: String::new(),
        files: vec![FileNode { name: "blob.bin".to_string(), content: bytes.clone(), executable: false }],
        dirs: vec![],
    };
    let out = materialize_tree(&root, Some(&meta), &widget_ctx(false)).unwrap();
    let f = find_file(&out, "blob.bin").expect("binary file should be written");
    assert_eq!(f.content, bytes);
}

#[test]
fn blank_rendering_drops_file() {
    let root = DirNode {
        name: String::new(),
        files: vec![text_file("maybe.md", "{{#if minimal}}kept{{/if}}")],
        dirs: vec![],
    };
    let out = materialize_tree(&root, None, &widget_ctx(false)).unwrap();
    assert!(find_file(&out, "maybe.md").is_none());
    let out_min = materialize_tree(&root, None, &widget_ctx(true)).unwrap();
    let f = find_file(&out_min, "maybe.md").expect("nonblank rendering is kept");
    assert_eq!(f.content, b"kept".to_vec());
}

#[test]
fn materialization_is_deterministic() {
    let root = DirNode {
        name: String::new(),
        files: vec![
            text_file("README.md", "# {{project_name}}"),
            text_file("main.c", "int main(void) { return 0; }\n"),
        ],
        dirs: vec![DirNode {
            name: "src".to_string(),
            files: vec![text_file("lib.c", "/* {{target_name}} */")],
            dirs: vec![],
        }],
    };
    let ctx = widget_ctx(false);
    let first = materialize_tree(&root, None, &ctx).unwrap();
    let second = materialize_tree(&root, None, &ctx).unwrap();
    assert_eq!(first, second);
}

#[test]
fn minimal_mode_omits_full_mode_only_dir() {
    let mut conv = empty_conventions();
    conv.full_mode_only = vec!["examples".to_string()];
    let meta = meta_with(vec![], conv);
    let root = DirNode {
        name: String::new(),
        files: vec![],
        dirs: vec![
            DirNode {
                name: "examples".to_string(),
                files: vec![text_file("a.txt", "a")],
                dirs: vec![],
            },
            DirNode {
                name: "fuzz".to_string(),
                files: vec![text_file("b.txt", "b")],
                dirs: vec![],
            },
        ],
    };
    let out = materialize_tree(&root, Some(&meta), &widget_ctx(true)).unwrap();
    assert!(find_file(&out, "examples/a.txt").is_none());
    assert!(find_file(&out, "fuzz/b.txt").is_some());
    let full = materialize_tree(&root, Some(&meta), &widget_ctx(false)).unwrap();
    assert!(find_file(&full, "examples/a.txt").is_some());
}

#[test]
fn always_include_wins_over_full_mode_only() {
    let mut conv = empty_conventions();
    conv.always_include = vec!["fuzz".to_string()];
    conv.full_mode_only = vec!["fuzz".to_string()];
    let meta = meta_with(vec![], conv);
    let root = DirNode {
        name: String::new(),
        files: vec![],
        dirs: vec![DirNode {
            name: "fuzz".to_string(),
            files: vec![text_file("b.txt", "b")],
            dirs: vec![],
        }],
    };
    let out = materialize_tree(&root, Some(&meta), &widget_ctx(true)).unwrap();
    assert!(find_file(&out, "fuzz/b.txt").is_some());
}

#[test]
fn nested_full_mode_only_dir_is_kept() {
    let mut conv = empty_conventions();
    conv.full_mode_only = vec!["examples".to_string()];
    let meta = meta_with(vec![], conv);
    let root = DirNode {
        name: String::new(),
        files: vec![],
        dirs: vec![DirNode {
            name: "deep".to_string(),
            files: vec![],
            dirs: vec![DirNode {
                name: "examples".to_string(),
                files: vec![text_file("a.txt", "a")],
                dirs: vec![],
            }],
        }],
    };
    let out = materialize_tree(&root, Some(&meta), &widget_ctx(true)).unwrap();
    assert!(find_file(&out, "deep/examples/a.txt").is_some());
}

#[test]
fn configuration_document_never_copied() {
    let root = DirNode {
        name: String::new(),
        files: vec![text_file("template.toml", "[template]")],
        dirs: vec![],
    };
    let out = materialize_tree(&root, None, &widget_ctx(false)).unwrap();
    assert!(out.files.is_empty());
}

#[test]
fn explicit_condition_decides_inclusion() {
    let meta = meta_with(
        vec![FileConfig::Single {
            path: "cmake.txt".to_string(),
            executable: false,
            template: false,
            condition: Some("integration == 'cmake'".to_string()),
        }],
        empty_conventions(),
    );
    let root = DirNode {
        name: String::new(),
        files: vec![text_file("cmake.txt", "cm")],
        dirs: vec![],
    };
    let make_ctx = make_render_context(
        "p".to_string(),
        "p".to_string(),
        "make".to_string(),
        false,
    );
    let cmake_ctx = make_render_context(
        "p".to_string(),
        "p".to_string(),
        "cmake".to_string(),
        false,
    );
    let out = materialize_tree(&root, Some(&meta), &make_ctx).unwrap();
    assert!(find_file(&out, "cmake.txt").is_none());
    let out2 = materialize_tree(&root, Some(&meta), &cmake_ctx).unwrap();
    assert!(find_file(&out2, "cmake.txt").is_some());
}

#[test]
fn multi_path_override_applies_to_each() {
    let meta = meta_with(
        vec![FileConfig::Multiple {
            paths: vec!["one.txt".to_string(), "two.txt".to_string()],
            executable: false,
            template: false,
            condition: Some("never == true".to_string()),
        }],
        empty_conventions(),
    );
    let root = DirNode {
        name: String::new(),
        files: vec![text_file("one.txt", "1"), text_file("two.txt", "2"), text_file("three.txt", "3")],
        dirs: vec![],
    };
    let out = materialize_tree(&root, Some(&meta), &widget_ctx(false)).unwrap();
    assert!(find_file(&out, "one.txt").is_none());
    assert!(find_file(&out, "two.txt").is_none());
    assert!(find_file(&out, "three.txt").is_some());
}

#[test]
fn non_text_file_kept_verbatim_with_name() {
    let root = DirNode {
        name: String::new(),
        files: vec![FileNode {
            name: "{{project_name}}.zip".to_string(),
            content: b"plain text inside".to_vec(),
            executable: false,
        }],
        dirs: vec![],
    };
    let out = materialize_tree(&root, None, &widget_ctx(false)).unwrap();
    let f = find_file(&out, "{{project_name}}.zip").expect("kept under its own name");
    assert_eq!(f.content, b"plain text inside".to_vec());
}

#[test]
fn text_filename_is_substituted() {
    let root = DirNode {
        name: String::new(),
        files: vec![text_file("{{project_name}}.md", "hello")],
        dirs: vec![],
    };
    let out = materialize_tree(&root, None, &widget_ctx(false)).unwrap();
    assert!(find_file(&out, "widget.md").is_some());
}

#[test]
fn directory_names_are_substituted() {
    let root = DirNode {
        name: String::new(),
        files: vec![],
        dirs: vec![DirNode {
            name: "{{target_name}}".to_string(),
            files: vec![text_file("a.md", "x")],
            dirs: vec![],
        }],
    };
    let out = materialize_tree(&root, None, &widget_ctx(false)).unwrap();
    assert!(find_file(&out, "widget/a.md").is_some());
    assert!(out.dirs.iter().any(|d| d == "widget"));
}

#[test]
fn executable_extension_convention_marks_file() {
    let mut conv = empty_conventions();
    conv.executable_extensions = vec!["sh".to_string()];
    let meta = meta_with(vec![], conv);
    let root = DirNode {
        name: String::new(),
        files: vec![text_file("run.sh", "echo hi"), text_file("note.md", "n")],
        dirs: vec![],
    };
    let out = materialize_tree(&root, Some(&meta), &widget_ctx(false)).unwrap();
    assert!(find_file(&out, "run.sh").unwrap().executable);
    assert!(!find_file(&out, "note.md").unwrap().executable);
}

#[test]
fn explicit_executable_override_marks_file() {
    let meta = meta_with(
        vec![FileConfig::Single {
            path: "tool".to_string(),
            executable: true,
            template: false,
            condition: None,
        }],
        empty_conventions(),
    );
    let root = DirNode {
        name: String::new(),
        files: vec![text_file("tool", "bits")],
        dirs: vec![],
    };
    let out = materialize_tree(&root, Some(&meta), &widget_ctx(false)).unwrap();
    assert!(find_file(&out, "tool").unwrap().executable);
}

#[test]
fn source_permission_bit_is_fallback() {
    let root = DirNode {
        name: String::new(),
        files: vec![FileNode {
            name: "magic".to_string(),
            content: b"x".to_vec(),
            executable: true,
        }],
        dirs: vec![],
    };
    let out = materialize_tree(&root, None, &widget_ctx(false)).unwrap();
    assert!(find_file(&out, "magic").unwrap().executable);
}

#[test]
fn no_template_extensions_beat_template_extensions() {
    let mut conv = empty_conventions();
    conv.template_extensions = vec!["md".to_string()];
    conv.no_template_extensions = vec!["md".to_string()];
    let meta = meta_with(vec![], conv);
    let root = DirNode {
        name: String::new(),
        files: vec![text_file("a.md", "{{project_name}}")],
        dirs: vec![],
    };
    let out = materialize_tree(&root, Some(&meta), &widget_ctx(false)).unwrap();
    assert_eq!(find_file(&out, "a.md").unwrap().content, b"{{project_name}}".to_vec());
}

#[test]
fn render_failure_aborts_run() {
    let root = DirNode {
        name: String::new(),
        files: vec![text_file("bad.md", "{{#if minimal}}never closed")],
        dirs: vec![],
    };
    let err = materialize_tree(&root, None, &widget_ctx(false)).unwrap_err();
    assert_eq!(err, ScaffoldError::RenderFailed);
    assert_eq!(err.message(), "template rendering failed");
}

#[test]
fn empty_tree_gives_only_root_dir() {
    let root = DirNode { name: String::new(), files: vec![], dirs: vec![] };
    let out = materialize_tree(&root, None, &widget_ctx(false)).unwrap();
    assert!(out.files.is_empty());
    assert_eq!(out.dirs, vec![String::new()]);
}
