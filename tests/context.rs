use pathy::{detect_call_context, is_path_context};

#[test]
fn detects_open_context() {
    let text = "with open(\"./foo\") as f:";
    let offset = text.find('\"').unwrap();
    assert!(is_path_context(text, offset));
}

#[test]
fn detects_pathlib_context() {
    let text = "Path(\"./foo\")";
    let offset = text.find('\"').unwrap();
    assert!(is_path_context(text, offset));
}

#[test]
fn detects_pandas_context() {
    let text = "pandas.read_csv(\"data.csv\")";
    let offset = text.find('\"').unwrap();
    assert!(is_path_context(text, offset));
}

#[test]
fn ignores_non_path_context() {
    let text = "print(\"hello\")";
    let offset = text.find('\"').unwrap();
    assert!(!is_path_context(text, offset));
}

#[test]
fn allows_named_path_arg() {
    let text = "load_data(path=\"./data.csv\")";
    let offset = text.find('\"').unwrap();
    assert!(is_path_context(text, offset));
}

#[test]
fn call_context_fields() {
    let text = "df = pd.read_csv(x, sep=\"";
    let ctx = detect_call_context(text, text.len() - 1).unwrap();
    assert_eq!(ctx.full_name, "pd.read_csv");
    assert_eq!(ctx.base_name, "read_csv");
    assert!(!ctx.arg_is_first);
    assert!(ctx.named_arg.is_none());
    let text = "load( filename = \"";
    let ctx = detect_call_context(text, text.len() - 1).unwrap();
    assert_eq!(ctx.full_name, "load");
    assert_eq!(ctx.named_arg.as_deref(), Some("filename"));
    let text = "f(g(1), \"";
    let ctx = detect_call_context(text, text.len() - 1).unwrap();
    assert_eq!(ctx.full_name, "f");
    assert!(detect_call_context("x = \"", 4).is_none());
    assert!(detect_call_context("( \"", 2).is_none());
}

#[test]
fn path_context_edges() {
    let text = "open(mode, \"";
    assert!(!is_path_context(text, text.len() - 1));
    let text = "base = Path(root) / \"";
    assert!(is_path_context(text, text.len() - 1));
    let text = "x = pathlib.Path(a)\ny = \"";
    assert!(!is_path_context(text, text.len() - 1));
    let far = format!("open({}\"", " ".repeat(400));
    assert!(!is_path_context(&far, far.len() - 1));
    let near = format!("open({}\"", " ".repeat(200));
    assert!(is_path_context(&near, near.len() - 1));
    let text = "é(\"";
    assert!(!is_path_context(text, 1));
}
