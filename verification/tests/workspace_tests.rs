use senamby::workspace::{ensure_non_empty_name, ensure_safe_workspace_component, normalize_entity_name};
use senamby::error::AppError;
use senamby::python_errors::extract_python_error_detail;

#[test]
fn safe_workspace_component_accepts_regular_names() {
    let value = ensure_safe_workspace_component("Meu Driver 1", "plugin").unwrap();
    assert_eq!(value, "Meu Driver 1");
}

#[test]
fn safe_workspace_component_rejects_path_traversal() {
    assert!(ensure_safe_workspace_component("../driver", "plugin").is_err());
    assert!(ensure_safe_workspace_component("driver/teste", "plugin").is_err());
    assert!(ensure_safe_workspace_component("driver\\teste", "plugin").is_err());
}

#[test]
fn safe_workspace_component_reports_each_refusal() {
    match ensure_safe_workspace_component("   ", "plugin") {
        Ok(v) => assert_eq!(v, "   "),
        Err(_) => panic!("a name of spaces is kept as it is"),
    }
    assert_eq!(
        ensure_safe_workspace_component("", "planta"),
        Err(AppError::InvalidArgument("Nome de planta não pode ser vazio".to_string()))
    );
    assert_eq!(
        ensure_safe_workspace_component("/etc", "plugin"),
        Err(AppError::InvalidArgument("Nome de plugin não pode ser caminho absoluto".to_string()))
    );
    assert_eq!(
        ensure_safe_workspace_component("a\\b", "plugin"),
        Err(AppError::InvalidArgument("Nome de plugin não pode conter separadores de diretório".to_string()))
    );
    assert_eq!(
        ensure_safe_workspace_component("a\u{7}b", "runtime"),
        Err(AppError::InvalidArgument("Nome de runtime contém caracteres inválidos".to_string()))
    );
    assert_eq!(
        ensure_safe_workspace_component(" .. ", "ambiente"),
        Err(AppError::InvalidArgument("Nome de ambiente contém componentes de caminho inválidos".to_string()))
    );
    assert_eq!(ensure_safe_workspace_component("  Driver  ", "plugin"), Ok("Driver".to_string()));
}

#[test]
fn entity_names_are_trimmed_unless_blank() {
    assert_eq!(normalize_entity_name("  Planta  "), "Planta");
    assert_eq!(normalize_entity_name("   "), "   ");
    assert!(ensure_non_empty_name("", "planta").is_err());
    assert_eq!(ensure_non_empty_name(" x ", "planta"), Ok("x".to_string()));
}

#[test]
fn extract_python_error_detail_skips_no_python_frame_noise() {
    let stderr = "\
Fatal Python error: Failed to import encodings module
Python runtime state: core initialized
ModuleNotFoundError: No module named 'encodings'

Current thread 0x0000000000000000 [python3] (most recent call first):
  <no Python frame>
";

    let detail = extract_python_error_detail(stderr, "", "fallback");
    assert_eq!(detail, "ModuleNotFoundError: No module named 'encodings'");
}

#[test]
fn extract_python_error_detail_keeps_useful_syntax_error_tail() {
    let stderr = "\
Traceback (most recent call last):
  File \"<string>\", line 1, in <module>
  File \"/tmp/plugin.py\", line 4
    return (
           ^
SyntaxError: '(' was never closed
";

    let detail = extract_python_error_detail(stderr, "", "fallback");
    assert_eq!(detail, "SyntaxError: '(' was never closed");
}

#[test]
fn extract_python_error_detail_falls_back() {
    assert_eq!(extract_python_error_detail("", "  \r\n\n", "fallback"), "fallback");
    assert_eq!(extract_python_error_detail("  <no Python frame>\r\n", "", "fallback"), "<no Python frame>");
    assert_eq!(extract_python_error_detail("erro\r\n", "saida final", "fallback"), "saida final");
}

#[test]
fn whitespace_matches_the_standard_library() {
    for code in 0u32..=0x10FFFF {
        if let Some(c) = char::from_u32(code) {
            assert_eq!(senamby::text::char_is_whitespace(c), c.is_whitespace(), "U+{code:04X}");
        }
    }
}
