use fivetris::config::skins::{
    BlockStyle, ConfigError, find_skin_palette, load_builtin_skin_palettes,
    load_skin_palettes_from_text,
};

#[test]
fn loads_reference_style_skin_palette_file() {
    let raw = "[DEFAULT]\nE=0x000000\nI=0x00D0FF\nJ=0x4080FF\nS=0x40D040\nO=0xFFE020\nZ=0xFF4020\nL=0xFF8020\nT=0xA040F0\nG=0xBBBBBB\nF=0x202020\nBKG=0x2F3136\nBOX=0x000000\nTXT=0xFFFFFF\nSTYLE=1\n\n[CHROMA]\nE=0x000000\nI=0x2DC1FF\nJ=0x2E55FF\nS=0x81FF06\nO=0xFFC12C\nZ=0xFF2D59\nL=0xFF802C\nT=0xFF22C3\nG=0xB2B2B2\nF=0x222222\nBKG=0x222222\nBOX=0x000000\nTXT=0xFFFFFF\nSTYLE=0\n";

    let palettes = load_skin_palettes_from_text("colors.ini", raw).expect("load palettes");
    assert_eq!(palettes.len(), 2);

    let default_palette = find_skin_palette(&palettes, "default").expect("find default");
    assert_eq!(default_palette.i, [0x00, 0xD0, 0xFF, 0xFF]);
    assert_eq!(default_palette.background, [0x2F, 0x31, 0x36, 0xFF]);
    assert_eq!(default_palette.style, BlockStyle::Inset);

    let chroma = find_skin_palette(&palettes, "CHROMA").expect("find chroma");
    assert_eq!(chroma.text, [0xFF, 0xFF, 0xFF, 0xFF]);
    assert_eq!(chroma.style, BlockStyle::Flat);
}

#[test]
fn builtin_palettes_load() {
    let palettes = load_builtin_skin_palettes().expect("builtin palettes");
    assert_eq!(palettes.len(), 2);
    assert_eq!(palettes[0].name, "DEFAULT");
    assert_eq!(palettes[1].name, "CHROMA");
    assert_eq!(palettes[1].s, [0x81, 0xFF, 0x06, 0xFF]);
}

#[test]
fn missing_keys_take_default_colors_and_comments_are_skipped() {
    let raw = "; comment\n# another\n[ Plain ]\r\nI = 0x123456\n";
    let palettes = load_skin_palettes_from_text("p.ini", raw).expect("load");
    assert_eq!(palettes.len(), 1);
    assert_eq!(palettes[0].name, "Plain");
    assert_eq!(palettes[0].i, [0x12, 0x34, 0x56, 0xFF]);
    assert_eq!(palettes[0].j, [0x40, 0x80, 0xFF, 0xFF]);
    assert_eq!(palettes[0].gray, [0xCC, 0xCC, 0xCC, 0xFF]);
    assert_eq!(palettes[0].style, BlockStyle::Inset);
}

#[test]
fn later_entries_win_and_plus_sign_is_a_zero_digit() {
    let raw = "[A]\nT=0x111111\nT=+ABCDE\n";
    let palettes = load_skin_palettes_from_text("p.ini", raw).expect("load");
    assert_eq!(palettes[0].t, [0x0A, 0xBC, 0xDE, 0xFF]);
}

fn parse_error(raw: &str) -> (usize, String) {
    match load_skin_palettes_from_text("p.ini", raw) {
        Err(ConfigError::Parse { path, line, message }) => {
            assert_eq!(path, "p.ini");
            (line, message)
        }
        other => panic!("expected a parse error, got {:?}", other),
    }
}

#[test]
fn reports_each_kind_of_fault() {
    assert_eq!(parse_error("[A\n"), (1, "unterminated section header".to_string()));
    assert_eq!(parse_error("\n[ ]\n"), (2, "empty section name".to_string()));
    assert_eq!(parse_error("[A]\nnonsense\n"), (2, "expected key=value entry".to_string()));
    assert_eq!(
        parse_error("I=0x000000\n"),
        (1, "entry appears before any section header".to_string())
    );
    assert_eq!(
        parse_error("[A]\nSTYLE=2\n"),
        (0, "[A] invalid STYLE value: 2".to_string())
    );
    assert_eq!(
        parse_error("[A]\nBKG=0x12345\n[B]\n"),
        (0, "[A] invalid BKG color: 0x12345".to_string())
    );
}

#[test]
fn error_messages_name_the_place() {
    let error = ConfigError::Parse {
        path: "colors.ini".to_string(),
        line: 12,
        message: "empty section name".to_string(),
    };
    assert_eq!(error.message(), "colors.ini:12: empty section name");
    assert_eq!(
        ConfigError::InvalidDirectory("/skins".to_string()).message(),
        "skin palette directory not found: /skins"
    );
}

#[test]
fn palette_names_match_ignoring_case() {
    let palettes = load_builtin_skin_palettes().expect("builtin palettes");
    assert!(palettes[1].matches_name("chroma"));
    assert!(!palettes[1].matches_name("chrome"));
    assert!(find_skin_palette(&palettes, "missing").is_none());
}
