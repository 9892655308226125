use opengl_shader_utils::shader::{parse_shader, ShaderSource, ShaderType};
use opengl_shader_utils::text::{chars_of, contains_in};

const BASIC_SHADER: &str = "#shader vertex\n#version 330 core\n\nlayout(location = 0) in vec4 position;\n\nvoid main()\n{\n    gl_Position = position;\n};\n\n#shader fragment\n#version 330 core\n\nlayout(location = 0) out vec4 color;\n\nvoid main()\n{\n    color = vec4(1.0, 0.0, 0.0, 1.0);\n};\n";

const MINIMAL_PAIR: &str = "#shader vertex\n#version 330 core\n\nvoid main() {}\n#shader fragment\n#version 330 core\n\nvoid main() {}\n";

#[test]
fn parse_shader_should_succeed() {
    let result = parse_shader(BASIC_SHADER);
    assert_eq!(result[0].source(), "#version 330 core\n\nlayout(location = 0) in vec4 position;\n\nvoid main()\n{\n    gl_Position = position;\n};\n\n");
    assert_eq!(result[1].source(), "#version 330 core\n\nlayout(location = 0) out vec4 color;\n\nvoid main()\n{\n    color = vec4(1.0, 0.0, 0.0, 1.0);\n};\n");
}

#[test]
fn minimal_pair_splits_into_vertex_then_fragment() {
    let result = parse_shader(MINIMAL_PAIR);
    assert_eq!(result.len(), 2);
    assert_eq!(result[0].shader_type(), ShaderType::VertexShader);
    assert_eq!(result[0].source(), "#version 330 core\n\nvoid main() {}\n");
    assert_eq!(result[1].shader_type(), ShaderType::FragmentShader);
    assert_eq!(result[1].source(), "#version 330 core\n\nvoid main() {}\n");
}

#[test]
fn two_blocks_hold_their_lines_in_order() {
    let result = parse_shader("#shader vertex\na\nb\n#shader fragment\nc");
    assert_eq!(result.len(), 2);
    assert_eq!(result[0].shader_type(), ShaderType::VertexShader);
    assert_eq!(result[0].source(), "a\nb\n");
    assert_eq!(result[1].shader_type(), ShaderType::FragmentShader);
    assert_eq!(result[1].source(), "c\n");
}

#[test]
fn leading_blank_line_is_dropped() {
    let with_blank = format!("\n{}", MINIMAL_PAIR);
    let a = parse_shader(&with_blank);
    let b = parse_shader(MINIMAL_PAIR);
    assert_eq!(a.len(), b.len());
    assert_eq!(a[0].shader_type(), b[0].shader_type());
    assert_eq!(a[0].source(), b[0].source());
    assert_eq!(a[0].source(), "#version 330 core\n\nvoid main() {}\n");
}

#[test]
fn lines_before_first_marker_are_dropped() {
    let result = parse_shader("preamble\nmore\n#shader fragment\nx\n");
    assert_eq!(result.len(), 1);
    assert_eq!(result[0].shader_type(), ShaderType::FragmentShader);
    assert_eq!(result[0].source(), "x\n");
}

#[test]
fn parsing_twice_gives_equal_blocks() {
    let a = parse_shader(BASIC_SHADER);
    let b = parse_shader(BASIC_SHADER);
    assert_eq!(a.len(), b.len());
    for i in 0..a.len() {
        assert_eq!(a[i].shader_type(), b[i].shader_type());
        assert_eq!(a[i].source(), b[i].source());
    }
}

#[test]
fn empty_text_has_no_blocks() {
    assert_eq!(parse_shader("").len(), 0);
    assert_eq!(parse_shader("no markers\nhere\n").len(), 0);
}

#[test]
fn unknown_marker_opens_no_block_and_is_dropped() {
    let result = parse_shader("#shader vertex\na\n#shader geometry\nb\n");
    assert_eq!(result.len(), 1);
    assert_eq!(result[0].source(), "a\nb\n");
}

#[test]
fn marker_anywhere_on_line_counts() {
    let result = parse_shader("  // #shader fragment here\nx\n");
    assert_eq!(result.len(), 1);
    assert_eq!(result[0].shader_type(), ShaderType::FragmentShader);
}

#[test]
fn vertex_wins_when_marker_names_both() {
    let result = parse_shader("#shader fragment vertex\nx\n");
    assert_eq!(result[0].shader_type(), ShaderType::VertexShader);
}

#[test]
fn crlf_line_endings_are_removed() {
    let result = parse_shader("#shader vertex\r\nline one\r\nline two\r\n");
    assert_eq!(result.len(), 1);
    assert_eq!(result[0].source(), "line one\nline two\n");
}

#[test]
fn lone_carriage_return_on_last_line_is_kept() {
    let result = parse_shader("#shader vertex\nend\r");
    assert_eq!(result[0].source(), "end\r\n");
}

#[test]
fn non_ascii_text_is_kept() {
    let result = parse_shader("#shader vertex\n// größe é\n");
    assert_eq!(result[0].source(), "// größe é\n");
}

#[test]
fn new_block_holds_given_text_and_stage() {
    let s = ShaderSource::new(ShaderType::FragmentShader, "abc");
    assert_eq!(s.shader_type(), ShaderType::FragmentShader);
    assert_eq!(s.source(), "abc");
}

#[test]
fn append_line_adds_line_feed() {
    let mut s = ShaderSource::new(ShaderType::VertexShader, "");
    s.append_line("first");
    s.append_line("");
    s.append_line("third");
    assert_eq!(s.source(), "first\n\nthird\n");
    assert_eq!(s.shader_type(), ShaderType::VertexShader);
}

#[test]
fn stage_enums_match_opengl() {
    assert_eq!(ShaderType::VertexShader.as_gl_enum(), 0x8B31);
    assert_eq!(ShaderType::FragmentShader.as_gl_enum(), 0x8B30);
}

#[test]
fn chars_of_keeps_every_character() {
    assert_eq!(chars_of("aé\n"), vec!['a', 'é', '\n']);
    assert_eq!(chars_of(""), Vec::<char>::new());
}

#[test]
fn contains_in_looks_only_inside_range() {
    let s = chars_of("xx#shader");
    let pat = chars_of("#shader");
    assert!(contains_in(&s, 0, 9, &pat));
    assert!(contains_in(&s, 2, 9, &pat));
    assert!(!contains_in(&s, 3, 9, &pat));
    assert!(!contains_in(&s, 0, 8, &pat));
    assert!(contains_in(&s, 4, 4, &Vec::new()));
}
