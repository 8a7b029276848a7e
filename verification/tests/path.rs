use setochka::path::GRiDPath;

#[test]
fn parses_grid_paths() {
    let cases: &[(&[u8], Option<&[u8]>, Option<&[u8]>, Option<&[u8]>)] = &[
        (b"`server:Device", None, None, None),
        (b"`server:Device`Mail", Some(b"Mail"), None, None),
        (b"`server:Device`Mail`", Some(b"Mail"), None, None),
        (b"`server:Device`Mail`File~Text~", Some(b"Mail"), Some(b"File~Text~"), None),
        (
            b"`server:Device`Folder~Subject~`File~Text~",
            Some(b"Folder~Subject~"),
            Some(b"File~Text~"),
            None,
        ),
        (
            b"`server:Device`Folder~Subject~`File~Text~|Password",
            Some(b"Folder~Subject~"),
            Some(b"File~Text~"),
            Some(b"Password"),
        ),
        (
            b"`server:Device`Folder`File~Text~`Version",
            Some(b"Folder"),
            Some(b"File~Text~"),
            None,
        ),
    ];

    for &(raw, folder, file_name, password) in cases {
        let path = GRiDPath::try_from(raw).unwrap();

        assert_eq!(path.as_bytes(), raw);
        let components = path.components();

        assert_eq!(path.server(), Some(b"server".as_slice()));
        assert_eq!(components.device, Some(b"Device".as_slice()));
        assert_eq!(components.folder, folder);
        assert_eq!(components.file, file_name);
        assert_eq!(path.password(), password);
    }
}

#[test]
fn accepts_non_utf8_names() {
    let path = GRiDPath::try_from(b"`server:Device`\xffolder`file~Data~").unwrap();

    assert_eq!(path.components().folder, Some(b"\xffolder".as_slice()));
}

#[test]
fn rejects_malformed_grid_paths() {
    for raw in [
        b"".as_slice(),
        b"server:Device",
        b"`:Device",
        b"`server:",
        b"`server:Device``Mail",
        b"`server:Device|",
        b"`server:Device|Password|Extra",
        b"`server:Dev:ice",
        b"`ser`ver:Device",
    ] {
        assert!(GRiDPath::try_from(raw).is_err(), "accepted {raw:?}");
    }
}

#[test]
fn names_each_refusal() {
    assert_eq!(GRiDPath::try_from(b"server:Device").err(), Some("path must start with `"));
    assert_eq!(
        GRiDPath::try_from(b"`server:Device|").err(),
        Some("path password must not be empty or contain |")
    );
    assert_eq!(
        GRiDPath::try_from(b"`serverDevice").err(),
        Some("path must contain a server name followed by :")
    );
    assert_eq!(GRiDPath::try_from(b"`:Device").err(), Some("path server name must not be empty"));
    assert_eq!(
        GRiDPath::try_from(b"`ser`ver:Device").err(),
        Some("path server name must not contain `")
    );
    assert_eq!(
        GRiDPath::try_from(b"`server:Dev:ice").err(),
        Some("path must not contain more than one server separator")
    );
    assert_eq!(GRiDPath::try_from(b"`server:").err(), Some("path device must not be empty"));
    assert_eq!(
        GRiDPath::try_from(b"`server:Device``Mail").err(),
        Some("path components must not be empty")
    );
}
