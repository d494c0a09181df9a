use fivetris::platform::{
    ClipboardError, PreferredColorScheme, ScreenshotError, parse_gsettings_color_scheme,
};

#[test]
fn parses_gsettings_color_scheme() {
    assert_eq!(
        parse_gsettings_color_scheme("'prefer-dark'\n"),
        Some(PreferredColorScheme::Dark)
    );
    assert_eq!(
        parse_gsettings_color_scheme("'prefer-light'\n"),
        Some(PreferredColorScheme::Light)
    );
    assert_eq!(parse_gsettings_color_scheme("'default'\n"), None);
}

#[test]
fn color_scheme_ignores_repeated_quotes_and_space() {
    assert_eq!(
        parse_gsettings_color_scheme("  ''prefer-dark'  "),
        Some(PreferredColorScheme::Dark)
    );
    assert_eq!(parse_gsettings_color_scheme("prefer-light"), Some(PreferredColorScheme::Light));
    assert_eq!(parse_gsettings_color_scheme("'prefer dark'"), None);
    assert_eq!(parse_gsettings_color_scheme(""), None);
}

#[test]
fn platform_errors_have_messages() {
    assert_eq!(
        ScreenshotError::Portal("denied".to_string()).message(),
        "portal error: denied"
    );
    assert_eq!(
        ScreenshotError::Decode("bad".to_string()).message(),
        "screenshot decode error: bad"
    );
    assert_eq!(
        ClipboardError::Unavailable("none".to_string()).message(),
        "clipboard error: none"
    );
}
