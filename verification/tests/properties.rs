//! Concrete scenarios for the library's stated properties: arity of raw
//! groups, plain rendering, round trips, table alignment, ragged rows, and
//! clearing styles.

use termstyle::Color;
use termstyle::El;
use termstyle::ElRaw;
use termstyle::Table;
use termstyle::TableRaw;
use termstyle::Text;
use termstyle::TextRaw;
use termstyle::TextsRaw;
use termstyle::normalize;
use termstyle::paint;
use termstyle::write_repr;

#[test]
fn multi_of_length_zero_yields_no_elements() {
    let raw = vec![ElRaw::Text(TextsRaw::Multi(vec![]))];
    let els = normalize(&raw);
    assert_eq!(els, vec![]);
}

#[test]
fn multi_of_length_n_yields_n_siblings() {
    let raw = vec![ElRaw::Text(TextsRaw::Multi(vec![
        TextRaw::Simple("a".into()),
        TextRaw::Full(Text::new("b".into()).bold()),
        TextRaw::Simple("c".into()),
    ]))];
    let els = normalize(&raw);
    let expected = vec![
        El::Text(Text::new("a".into())),
        El::Text(Text::new("b".into()).bold()),
        El::Text(Text::new("c".into())),
    ];
    assert_eq!(els, expected);
}

#[test]
fn table_cell_group_yields_one_cell() {
    // A Single cell and a Multi cell of two units both yield exactly one
    // cell; the Multi cell's units concatenate on one line instead of
    // expanding into siblings.
    let raw = vec![ElRaw::Table(TableRaw::new(vec![vec![
        TextsRaw::Single(TextRaw::Simple("one".into())),
        TextsRaw::Multi(vec![
            TextRaw::Simple("tw".into()),
            TextRaw::Full(Text::new("o".into()).bold()),
        ]),
    ]]))];
    let els = normalize(&raw);
    let expected = vec![El::Table(Table::new(vec![vec![
        vec![Text::new("one".into())],
        vec![Text::new("tw".into()), Text::new("o".into()).bold()],
    ]]))];
    assert_eq!(els, expected);

    let mut out = String::new();
    paint(&mut out, &els);
    assert_eq!(out.as_bytes(), b"one tw\x1b[1mo\x1b[0m\n");
}

#[test]
fn plain_unit_renders_bare() {
    let mut out = String::new();
    Text::new("just text\n".into()).paint(&mut out);
    assert_eq!(out, "just text\n");
    assert_eq!(out.as_bytes(), b"just text\n");
}

#[test]
fn bold_round_trip() {
    // Normalize then paint of [{"t": "x", "b": true}].
    let raw = vec![ElRaw::Text(TextsRaw::Single(TextRaw::Full(
        Text::new("x".into()).bold(),
    )))];
    let els = normalize(&raw);
    let mut out = String::new();
    paint(&mut out, &els);
    assert_eq!(out.as_bytes(), b"\x1b[1mx\x1b[0m");

    // The same document with the style cleared paints as bare text.
    let mut els = els;
    for el in &mut els {
        el.set_plain();
    }
    let mut out = String::new();
    paint(&mut out, &els);
    assert_eq!(out.as_bytes(), b"x");
}

#[test]
fn table_alignment_scenario() {
    let table = Table::new(vec![
        vec![
            vec![Text::new("header1".into())],
            vec![Text::new("header2".into())],
        ],
        vec![
            vec![Text::new("col1".into())],
            vec![Text::new("col2".into())],
        ],
    ]);
    assert!(table.fits());
    let mut out = String::new();
    table.paint(&mut out);
    assert_eq!(out, "header1 header2\ncol1    col2\n");
}

#[test]
fn ragged_table_renders_without_padding_missing_cells() {
    // The second row has fewer cells than the first: it renders with its
    // own cells only, and nothing is fabricated for the missing column.
    let table = Table::new(vec![
        vec![
            vec![Text::new("r1c1".into())],
            vec![Text::new("r1col2".into())],
        ],
        vec![vec![Text::new("x".into())]],
    ]);
    let mut out = String::new();
    table.paint(&mut out);
    assert_eq!(out, "r1c1 r1col2\nx\n");

    // The short row still pads its non-final cells to the column width.
    let table = Table::new(vec![
        vec![
            vec![Text::new("wide cell".into())],
            vec![Text::new("b".into())],
            vec![Text::new("c".into())],
        ],
        vec![vec![Text::new("a".into())], vec![Text::new("bb".into())]],
    ]);
    let mut out = String::new();
    table.paint(&mut out);
    assert_eq!(out, "wide cell b  c\na         bb\n");
}

#[test]
fn set_plain_is_idempotent() {
    let styled = || {
        Text::new("unit".into())
            .bold()
            .italic()
            .color(Color::Red)
            .background(Color::Blue)
    };

    // On a text unit.
    let mut once = El::Text(styled());
    once.set_plain();
    let mut twice = El::Text(styled());
    twice.set_plain();
    twice.set_plain();
    assert_eq!(once, twice);
    assert_eq!(once, El::Text(Text::new("unit".into())));

    // On every unit nested inside every cell of a table.
    let table = || {
        El::Table(Table::new(vec![
            vec![vec![styled(), Text::new("plain".into())]],
            vec![vec![styled()], vec![styled()]],
        ]))
    };
    let mut once = table();
    once.set_plain();
    let mut twice = table();
    twice.set_plain();
    twice.set_plain();
    assert_eq!(once, twice);
    assert_eq!(
        once,
        El::Table(Table::new(vec![
            vec![vec![Text::new("unit".into()), Text::new("plain".into())]],
            vec![vec![Text::new("unit".into())], vec![Text::new("unit".into())]],
        ]))
    );

    // Clearing never changes what the text says: painting the cleared
    // table gives the bare texts.
    let mut out = String::new();
    once.paint(&mut out);
    assert_eq!(out, "unitplain\nunit      unit\n");
}

#[test]
fn every_foreground_color_code() {
    let cases = [
        (Color::Black, &b"\x1b[30mc\x1b[0m"[..]),
        (Color::Red, b"\x1b[31mc\x1b[0m"),
        (Color::Green, b"\x1b[32mc\x1b[0m"),
        (Color::Yellow, b"\x1b[33mc\x1b[0m"),
        (Color::Blue, b"\x1b[34mc\x1b[0m"),
        (Color::Purple, b"\x1b[35mc\x1b[0m"),
        (Color::Cyan, b"\x1b[36mc\x1b[0m"),
        (Color::White, b"\x1b[37mc\x1b[0m"),
    ];
    for (color, expected) in cases {
        let mut out = String::new();
        Text::new("c".into()).color(color).paint(&mut out);
        assert_eq!(out.as_bytes(), expected);
    }
}

#[test]
fn background_comes_before_foreground() {
    let mut out = String::new();
    Text::new("x".into())
        .color(Color::Red)
        .background(Color::Blue)
        .paint(&mut out);
    assert_eq!(out.as_bytes(), b"\x1b[44;31mx\x1b[0m");

    let mut out = String::new();
    Text::new("x".into()).background(Color::White).paint(&mut out);
    assert_eq!(out.as_bytes(), b"\x1b[47mx\x1b[0m");
}

#[test]
fn italic_code() {
    let mut out = String::new();
    Text::new("i".into()).italic().paint(&mut out);
    assert_eq!(out.as_bytes(), b"\x1b[3mi\x1b[0m");

    let mut out = String::new();
    Text::new("i".into()).bold().italic().color(Color::Green).paint(&mut out);
    assert_eq!(out.as_bytes(), b"\x1b[1;3;32mi\x1b[0m");
}

#[test]
fn getters_report_the_flags() {
    let t = Text::new("g".into()).bold().color(Color::Cyan);
    assert!(t.is_bold());
    assert!(!t.is_italic());
    assert!(!t.is_plain());
    assert_eq!(t.get_color(), Color::Cyan);

    let p = Text::new("g".into()).italic();
    assert!(!p.is_bold());
    assert!(p.is_italic());
    assert!(p.is_plain());
    assert_eq!(p.get_color(), Color::Plain);
}

#[test]
fn elements_paint_back_to_back() {
    let els = vec![
        El::plain("a".into()),
        El::Text(Text::new("b".into()).bold()),
        El::plain("c".into()),
    ];
    for el in &els {
        assert!(el.fits());
    }
    let mut out = String::new();
    paint(&mut out, &els);
    assert_eq!(out.as_bytes(), b"a\x1b[1mb\x1b[0mc");
}

#[test]
fn normalization_is_deterministic() {
    let build = || {
        vec![
            ElRaw::Text(TextsRaw::Multi(vec![
                TextRaw::Simple("a".into()),
                TextRaw::Full(Text::new("b".into()).color(Color::Red)),
            ])),
            ElRaw::Table(TableRaw::new(vec![vec![TextsRaw::Single(
                TextRaw::Simple("c".into()),
            )]])),
        ]
    };
    let first = normalize(&build());
    let second = normalize(&build());
    assert_eq!(first, second);
}

#[test]
fn repr_escapes() {
    let r = |b: &[u8]| {
        let mut w: Vec<u8> = Vec::new();
        write_repr(&mut w, b);
        String::from_utf8(w).unwrap()
    };
    assert_eq!(r"\t\n\r", r(b"\t\n\r"));
    assert_eq!(r"\x00\x1f\x7f\xff", r(&[0x00, 0x1f, 0x7f, 0xff]));
    assert_eq!(r" ~", r(b" ~"));
    assert_eq!(r"\x1b[1m", r(b"\x1b[1m"));
    assert_eq!("", r(b""));
}

#[test]
fn empty_table_and_empty_cells_render() {
    let empty = Table::new(vec![]);
    let mut out = String::new();
    empty.paint(&mut out);
    assert_eq!(out, "");

    // An empty row paints as a bare newline; an empty cell has width 0.
    let table = Table::new(vec![
        vec![],
        vec![vec![], vec![Text::new("x".into())]],
    ]);
    let mut out = String::new();
    table.paint(&mut out);
    assert_eq!(out, "\n x\n");
}
