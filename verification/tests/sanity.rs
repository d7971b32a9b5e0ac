//! Sanity tests: the raw document model a deserializer would produce for
//! each document is built by hand and handed to the library through its
//! deserializer-function interface.

use termstyle::Color;
use termstyle::El;
use termstyle::ElRaw;
use termstyle::Table;
use termstyle::TableRaw;
use termstyle::Text;
use termstyle::TextRaw;
use termstyle::TextsRaw;
use termstyle::from_str;
use termstyle::paint;
use termstyle::write_repr;

static BASIC_YAML: &str = r#"
- some plain text
- {t: " bold text ", b:true}
- {t: red-only, c:red}
- {t: " green-only\n", c:green}
-
    t: |-
        defined in multiple lines with multiple things
        is multiple lines
    i: true
    b: true
    c: green
- ["\nall in ", {t: "one line!!!", b: true}]
"#;

/// The raw document model of `BASIC_YAML`, as a deserializer yields it.
fn deserialize_basic(_s: &str) -> Result<Vec<ElRaw>, ()> {
    Ok(vec![
        ElRaw::Text(TextsRaw::Single(TextRaw::Simple("some plain text".into()))),
        ElRaw::Text(TextsRaw::Single(TextRaw::Full(Text::new(" bold text ".into()).bold()))),
        ElRaw::Text(TextsRaw::Single(TextRaw::Full(
            Text::new("red-only".into()).color(Color::Red),
        ))),
        ElRaw::Text(TextsRaw::Single(TextRaw::Full(
            Text::new(" green-only\n".into()).color(Color::Green),
        ))),
        ElRaw::Text(TextsRaw::Single(TextRaw::Full(
            Text::new(
                "defined in multiple lines with multiple things\nis multiple lines".into(),
            )
            .italic()
            .bold()
            .color(Color::Green),
        ))),
        ElRaw::Text(TextsRaw::Multi(vec![
            TextRaw::Simple("\nall in ".into()),
            TextRaw::Full(Text::new("one line!!!".into()).bold()),
        ])),
    ])
}

fn repr(bytes: &[u8]) -> String {
    let mut w: Vec<u8> = Vec::new();
    write_repr(&mut w, bytes);
    String::from_utf8(w).unwrap()
}

#[test]
fn sanity_deserialize() {
    let items = from_str(deserialize_basic, BASIC_YAML).unwrap();
    let expected = vec![
        El::plain("some plain text".into()),
        El::Text(Text::new(" bold text ".into()).bold()),
        El::Text(Text::new("red-only".into()).color(Color::Red)),
        El::Text(Text::new(" green-only\n".into()).color(Color::Green)),
        El::Text(
            Text::new(
                "\
                 defined in multiple lines with multiple things\n\
                 is multiple lines"
                    .into(),
            )
            .italic()
            .bold()
            .color(Color::Green),
        ),
        El::Text(Text::new("\nall in ".into())),
        El::Text(Text::new("one line!!!".into()).bold()),
    ];
    assert_eq!(items, expected);
}

static BASIC_YAML_RENDERED: &[u8] = b"\
some plain text\x1b[1m bold text \x1b[0m\x1b[31mred-only\x1b[0m\x1b[32m green-only\n\
\x1b[0m\x1b[1;3;32mdefined in multiple lines with multiple things\n\
is multiple lines\x1b[0m\n\
all in \x1b[1mone line!!!\x1b[0m\
";

#[test]
fn sanity_paint() {
    let items = from_str(deserialize_basic, BASIC_YAML).unwrap();
    let mut result = String::new();
    paint(&mut result, &items);
    let (repr_e, repr_r) = (repr(BASIC_YAML_RENDERED), repr(result.as_bytes()));
    assert_eq!(repr_e, repr_r);
}

#[test]
fn sanity_table() {
    let yaml_raw = r#"
- table:
  - ["header1", "header2"]
  - ["col1", "col2"]
"#;
    let deserialize_table = |_s: &str| -> Result<Vec<ElRaw>, ()> {
        Ok(vec![ElRaw::Table(TableRaw::new(vec![
            vec![
                TextsRaw::Single(TextRaw::Simple("header1".into())),
                TextsRaw::Single(TextRaw::Simple("header2".into())),
            ],
            vec![
                TextsRaw::Single(TextRaw::Simple("col1".into())),
                TextsRaw::Single(TextRaw::Simple("col2".into())),
            ],
        ]))])
    };
    let elements = from_str(deserialize_table, yaml_raw).unwrap();
    let expected = vec![El::Table(Table::new(vec![
        // header
        vec![
            vec![Text::new("header1".into())],
            vec![Text::new("header2".into())],
        ],
        // row1
        vec![
            vec![Text::new("col1".into())],
            vec![Text::new("col2".into())],
        ],
    ]))];
    assert_eq!(expected, elements);

    let mut result = String::new();
    paint(&mut result, &elements);
    let expected = b"header1 header2\ncol1    col2\n";
    let (repr_e, repr_r) = (repr(expected), repr(result.as_bytes()));
    assert_eq!(repr_e, repr_r);
}

static SANITY_README_RENDERED: &[u8] = b"\
\x1b[1m-- EXAMPLE --\n\
\x1b[0mThis is a regular string with a newline\n\
This does not have a newline, but \x1b[31mthis is red\x1b[0m, but this is NOT red!\n\
Bold is easy like this: \x1b[1msee I'm bold!!\n\
\x1b[0mAnd so is multiple settings\x1b[1;32m\n\
bold AND green!\n\
and even multiple lines :) :)\n\
\x1b[0m\nyou can group multiple text items \x1b[1mon one line!\x1b[0m\n\
Grouping things in one line is necessary for tables\n\
Notice that some cells are grouped and some are not.\n\n\
\x1b[1m# Table\x1b[0m\n\
header \x1b[1mcol1\x1b[0m | header col2\n\
row col1    | \x1b[32mrow col2\x1b[0m\n\
";

/// The raw model of the readme example, as a deserializer yields it.
fn deserialize_readme(_s: &str) -> Result<Vec<ElRaw>, ()> {
    Ok(vec![
        ElRaw::Text(TextsRaw::Single(TextRaw::Full(
            Text::new("-- EXAMPLE --\n".into()).bold(),
        ))),
        ElRaw::Text(TextsRaw::Single(TextRaw::Simple(
            "This is a regular string with a newline\n".into(),
        ))),
        ElRaw::Text(TextsRaw::Single(TextRaw::Simple(
            "This does not have a newline, but ".into(),
        ))),
        ElRaw::Text(TextsRaw::Single(TextRaw::Full(
            Text::new("this is red".into()).color(Color::Red),
        ))),
        ElRaw::Text(TextsRaw::Single(TextRaw::Simple(
            ", but this is NOT red!\n".into(),
        ))),
        ElRaw::Text(TextsRaw::Single(TextRaw::Simple(
            "Bold is easy like this: ".into(),
        ))),
        ElRaw::Text(TextsRaw::Single(TextRaw::Full(
            Text::new("see I'm bold!!\n".into()).bold(),
        ))),
        ElRaw::Text(TextsRaw::Single(TextRaw::Simple(
            "And so is multiple settings".into(),
        ))),
        ElRaw::Text(TextsRaw::Single(TextRaw::Full(
            Text::new("\nbold AND green!\nand even multiple lines :) :)\n".into())
                .bold()
                .color(Color::Green),
        ))),
        ElRaw::Text(TextsRaw::Multi(vec![
            TextRaw::Simple("\nyou can group multiple text items ".into()),
            TextRaw::Full(Text::new("on one line!".into()).bold()),
        ])),
        ElRaw::Text(TextsRaw::Single(TextRaw::Simple(
            "\nGrouping things in one line is necessary for tables\n".into(),
        ))),
        ElRaw::Text(TextsRaw::Single(TextRaw::Simple(
            "Notice that some cells are grouped and some are not.\n\n".into(),
        ))),
        ElRaw::Text(TextsRaw::Multi(vec![
            TextRaw::Full(Text::new("# Table".into()).bold()),
            TextRaw::Simple("\n".into()),
        ])),
        ElRaw::Table(TableRaw::new(vec![
            vec![
                TextsRaw::Multi(vec![
                    TextRaw::Simple("header ".into()),
                    TextRaw::Full(Text::new("col1".into()).bold()),
                ]),
                TextsRaw::Single(TextRaw::Simple("| header col2".into())),
            ],
            vec![
                TextsRaw::Single(TextRaw::Simple("row col1".into())),
                TextsRaw::Multi(vec![
                    TextRaw::Simple("| ".into()),
                    TextRaw::Full(Text::new("row col2".into()).color(Color::Green)),
                ]),
            ],
        ])),
    ])
}

#[test]
/// run a test against the example in the readme
fn sanity_readme() {
    let readme = r####"
- {t: "-- EXAMPLE --\n", b: true}
- "This is a regular string with a newline\n"
- "This does not have a newline, but "
- {t: "this is red", c: red}
- ", but this is NOT red!\n"
- "Bold is easy like this: "
- {t: "see I'm bold!!\n", b: true}
- And so is multiple settings
- # long-form
  t: |

      bold AND green!
      and even multiple lines :) :)
  b: true
  c: green
- ["\nyou can group multiple text items ", {t: "on one line!", b: true}]
- "\nGrouping things in one line is necessary for tables\n"
- "Notice that some cells are grouped and some are not.\n\n"
- [{t: "# Table", b: true}, "\n"]
-
  table:
  - [["header ", {t: "col1", b: true}] ,"| header col2"]
  - ["row col1", ["| ", {t: "row col2", c: green}]]
"####;
    let items = from_str(deserialize_readme, readme).unwrap();
    let mut result = String::new();
    paint(&mut result, &items);
    let (repr_e, repr_r) = (repr(SANITY_README_RENDERED), repr(result.as_bytes()));
    assert_eq!(repr_e, repr_r);
}

#[test]
fn sanity_color() {
    let one = |yaml: &'static str, c: Option<Color>| -> Vec<El> {
        from_str(
            move |_s: &str| -> Result<Vec<ElRaw>, ()> {
                let raw = match c {
                    None => TextRaw::Simple("color".into()),
                    Some(col) => TextRaw::Full(Text::new("color".into()).color(col)),
                };
                Ok(vec![ElRaw::Text(TextsRaw::Single(raw))])
            },
            yaml,
        )
        .unwrap()
    };
    let plain = one("- color", None);
    let black = one("- {t: color, c: black}", Some(Color::Black));
    let red = one("- {t: color, c: red}", Some(Color::Red));
    let green = one("- {t: color, c: green}", Some(Color::Green));
    let yellow = one("- {t: color, c: yellow}", Some(Color::Yellow));
    let blue = one("- {t: color, c: blue}", Some(Color::Blue));
    let purple = one("- {t: color, c: purple}", Some(Color::Purple));
    let cyan = one("- {t: color, c: cyan}", Some(Color::Cyan));
    let white = one("- {t: color, c: white}", Some(Color::White));

    fn assert_color(els: &[El], expected: Color) {
        let t = match els[0] {
            El::Text(ref t) => t,
            _ => panic!(),
        };

        assert_eq!(expected, t.get_color());
    }
    assert_color(&plain, Color::Plain);
    assert_color(&black, Color::Black);
    assert_color(&red, Color::Red);
    assert_color(&green, Color::Green);
    assert_color(&yellow, Color::Yellow);
    assert_color(&blue, Color::Blue);
    assert_color(&purple, Color::Purple);
    assert_color(&cyan, Color::Cyan);
    assert_color(&white, Color::White);
}

#[test]
fn sanity_repr() {
    let r = |b: &[u8]| {
        let mut w: Vec<u8> = Vec::new();
        write_repr(&mut w, b);
        String::from_utf8(w).unwrap()
    };
    assert_eq!(r"foo", r(b"foo"));
    assert_eq!(r"\\", r(b"\\"));
    assert_eq!(r"\x8a", r(b"\x8a"));
    assert_eq!(r"\x8a", r(&[0x8a]));
}
