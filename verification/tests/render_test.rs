use convert_typst_math_to_mathml::attach::{resolve_attachment, Attachments};
use convert_typst_math_to_mathml::eval_math::{eval, EvalMathResult, Evaluation};
use convert_typst_math_to_mathml::math_class::MathClass;
use convert_typst_math_to_mathml::mathml::{
    convert_to_mathml, decorate, process_h, process_primes, render, render_document,
    render_within, MAX_DEPTH,
};
use convert_typst_math_to_mathml::node::{Alignment, Decoration, Node, Spacing};
use convert_typst_math_to_mathml::style::{MathVariant, StyleContext, StyleOverride};

const LEFT: &str = "<mtd style=\"text-align: left\">";
const CENTER: &str = "<mtd style=\"text-align: center\">";
const RIGHT: &str = "<mtd style=\"text-align: right\">";

fn text(s: &str) -> Node {
    Node::Text { raw: s.to_string() }
}

fn bx(n: Node) -> Box<Node> {
    Box::new(n)
}

fn some(n: Node) -> Option<Box<Node>> {
    Some(Box::new(n))
}

fn seq(children: Vec<Node>) -> Node {
    Node::Sequence { children }
}

fn attach(base: Node, slots: [Option<Node>; 6]) -> Node {
    let [top, bottom, top_left, bottom_left, top_right, bottom_right] = slots;
    Node::Attach {
        base: bx(base),
        top: top.map(Box::new),
        bottom: bottom.map(Box::new),
        top_left: top_left.map(Box::new),
        bottom_left: bottom_left.map(Box::new),
        top_right: top_right.map(Box::new),
        bottom_right: bottom_right.map(Box::new),
    }
}

fn show(node: &Node) -> String {
    render(node, &StyleContext::new())
}

#[test]
fn superscript_wraps_base_and_exponent() {
    let node = attach(text("A"), [None, None, None, None, Some(text("2")), None]);
    assert_eq!(show(&node), "<msup><mi>A</mi><mn>2</mn></msup>");
}

#[test]
fn script_above_an_ordinary_base_moves_to_the_corner() {
    let node = attach(text("A"), [Some(text("2")), None, None, None, None, None]);
    assert_eq!(show(&node), "<msup><mi>A</mi><mn>2</mn></msup>");
    let node = attach(text("A"), [None, Some(text("1")), None, None, None, None]);
    assert_eq!(show(&node), "<msub><mi>A</mi><mn>1</mn></msub>");
    let node = attach(text("A"), [Some(text("2")), Some(text("1")), None, None, None, None]);
    assert_eq!(show(&node), "<msubsup><mi>A</mi><mn>1</mn><mn>2</mn></msubsup>");
    let node = attach(text("A"), [Some(text("2")), None, None, None, Some(text("3")), None]);
    assert_eq!(
        show(&node),
        "<munderover><mmultiscripts><mi>A</mi><mrow></mrow><mn>3</mn><mprescripts /><mrow></mrow><mrow></mrow></mmultiscripts><mrow></mrow><mn>2</mn></munderover>"
    );
}

#[test]
fn fraction_has_two_children() {
    let node = Node::Fraction { numerator: bx(text("a")), denominator: bx(text("b")) };
    assert_eq!(show(&node), "<mfrac><mi>a</mi><mi>b</mi></mfrac>");
}

#[test]
fn binomial_is_a_fraction_without_a_line_in_parentheses() {
    let node = Node::Binomial { upper: bx(text("n")), lower: vec![text("k")] };
    assert_eq!(
        show(&node),
        "<mrow><mo>(</mo><mfrac linethickness=\"0\"><mi>n</mi><mrow><mi>k</mi></mrow></mfrac><mo>)</mo></mrow>"
    );
    let node = Node::Binomial { upper: bx(text("n")), lower: vec![text("k"), text("j"), text("1")] };
    assert_eq!(
        show(&node),
        "<mrow><mo>(</mo><mfrac linethickness=\"0\"><mi>n</mi><mrow><mi>k</mi><mo>,</mo><mi>j</mi><mo>,</mo><mn>1</mn></mrow></mfrac><mo>)</mo></mrow>"
    );
    let node = Node::Binomial { upper: bx(text("n")), lower: vec![] };
    assert_eq!(
        show(&node),
        "<mrow><mo>(</mo><mfrac linethickness=\"0\"><mi>n</mi><mrow></mrow></mfrac><mo>)</mo></mrow>"
    );
}

#[test]
fn matrix_of_numbers_is_a_table_of_numeric_literals() {
    let node = Node::Matrix {
        open: Some('('),
        close: Some(')'),
        align: Alignment::Center,
        rows: vec![vec![text("1"), text("2")], vec![text("3"), text("4")]],
    };
    let expected = format!(
        "<mrow><mo form=\"prefix\">(</mo><mtable><mtr>{c}<mn>1</mn></mtd>{c}<mn>2</mn></mtd></mtr><mtr>{c}<mn>3</mn></mtd>{c}<mn>4</mn></mtd></mtr></mtable><mo form=\"postfix\">)</mo></mrow>",
        c = CENTER
    );
    assert_eq!(show(&node), expected);
}

#[test]
fn matrix_alignment_and_missing_delimiters() {
    let node = Node::Matrix {
        open: None,
        close: Some(']'),
        align: Alignment::Start,
        rows: vec![vec![text("a")], vec![]],
    };
    let expected = format!(
        "<mrow><mtable><mtr>{l}<mi>a</mi></mtd></mtr><mtr></mtr></mtable><mo form=\"postfix\">]</mo></mrow>",
        l = LEFT
    );
    assert_eq!(show(&node), expected);
    let node = Node::Matrix { open: Some('['), close: None, align: Alignment::End, rows: vec![] };
    assert_eq!(show(&node), "<mrow><mo form=\"prefix\">[</mo><mtable></mtable></mrow>");
}

#[test]
fn vector_has_one_cell_per_row() {
    let node = Node::Vector {
        open: Some('['),
        close: Some(']'),
        align: Alignment::End,
        children: vec![text("1"), text("x")],
    };
    let expected = format!(
        "<mrow><mo form=\"prefix\">[</mo><mtable><mtr>{r}<mn>1</mn></mtd></mtr><mtr>{r}<mi>x</mi></mtd></mtr></mtable><mo form=\"postfix\">]</mo></mrow>",
        r = RIGHT
    );
    assert_eq!(show(&node), expected);
}

#[test]
fn styled_bold_italic_letter_is_the_mathematical_one() {
    let node = Node::Styled {
        style: StyleOverride { variant: None, bold: Some(true), italic: Some(true), block: None },
        child: bx(text("a")),
    };
    assert_eq!(show(&node), "<mi>\u{1D482}</mi>");
}

#[test]
fn style_does_not_leak_to_siblings() {
    let bold = StyleOverride { variant: None, bold: Some(true), italic: None, block: None };
    let frak =
        StyleOverride { variant: Some(MathVariant::Frak), bold: None, italic: None, block: None };
    let node = seq(vec![
        text("a"),
        Node::Styled {
            style: bold,
            child: bx(seq(vec![text("a"), Node::Styled { style: frak, child: bx(text("a")) }])),
        },
        text("a"),
    ]);
    assert_eq!(
        show(&node),
        "<mrow><mi>a</mi><mrow><mi>\u{1D41A}</mi><mi>\u{1D586}</mi></mrow><mi>a</mi></mrow>"
    );
}

#[test]
fn unknown_kind_is_marked_and_named() {
    let node = Node::Unknown { kind: "figure".to_string() };
    assert_eq!(show(&node), "<merror>`figure` Not Implemented Yet</merror>");
    let node = Node::Fraction { numerator: bx(Node::Linebreak), denominator: bx(text("b")) };
    assert_eq!(
        show(&node),
        "<mfrac><merror>`linebreak` Not Implemented Yet</merror><mi>b</mi></mfrac>"
    );
}

#[test]
fn root_with_and_without_index() {
    let node = Node::Root { radicand: bx(text("x")), index: None };
    assert_eq!(show(&node), "<msqrt><mi>x</mi></msqrt>");
    let node = Node::Root { radicand: bx(text("x")), index: some(text("3")) };
    assert_eq!(show(&node), "<mroot><mi>x</mi><mn>3</mn></mroot>");
}

#[test]
fn accent_is_an_operator_over_the_base() {
    let node = Node::Accent { base: bx(text("a")), accent: '\u{2192}' };
    assert_eq!(show(&node), "<mover accent=\"true\"><mi>a</mi><mo>\u{2192}</mo></mover>");
}

#[test]
fn wrappers_pass_their_body_through() {
    assert_eq!(show(&Node::Limits { body: bx(text("a")) }), "<mi>a</mi>");
    assert_eq!(show(&Node::Equation { body: bx(text("a")) }), "<mi>a</mi>");
    assert_eq!(show(&Node::Scripts { body: bx(text("a")) }), "<mrow><mi>a</mi></mrow>");
    assert_eq!(show(&Node::Lr { body: bx(text("a")) }), "<mrow><mi>a</mi></mrow>");
}

#[test]
fn operator_label_is_escaped_text_or_markup() {
    assert_eq!(show(&Node::Op { label: bx(text("lim")), limits: true }), "<mo>lim</mo>");
    assert_eq!(show(&Node::Op { label: bx(text("a<b")), limits: false }), "<mo>a&lt;b</mo>");
    assert_eq!(
        show(&Node::Op { label: bx(seq(vec![text("a")])), limits: false }),
        "<mo><mrow><mi>a</mi></mrow></mo>"
    );
}

#[test]
fn cancel_strikes_its_body() {
    assert_eq!(
        show(&Node::Cancel { body: bx(text("x")) }),
        "<menclose class=\"equation-typst-cancel\" notation=\"updiagonalstrike\"><mi>x</mi><mrow class=\"equation-typst-cancel-wrapper-placeholder\"></mrow></menclose>"
    );
}

#[test]
fn cases_have_two_cells_per_sequence_row() {
    let node = Node::Cases {
        open: Some('{'),
        close: None,
        reverse: false,
        children: vec![
            seq(vec![text("1"), Node::Space, text("x"), Node::Space]),
            text("0"),
            seq(vec![text("y")]),
            seq(vec![]),
            seq(vec![Node::Space, Node::AlignPoint]),
        ],
    };
    let expected = format!(
        "<mrow><mo>{{</mo><mtable><mtr>{l}<mn>1</mn></mtd>{l}<mtext>&nbsp;</mtext><mi>x</mi><mtext>&nbsp;</mtext></mtd></mtr><mtr>{l}<mn>0</mn></mtd></mtr><mtr>{l}<mi>y</mi></mtd></mtr><mtr></mtr><mtr>{l}</mtd></mtr></mtable></mrow>",
        l = LEFT
    );
    assert_eq!(show(&node), expected);
}

#[test]
fn cases_delimiter_depends_on_the_side() {
    let rows = || vec![text("0")];
    let body = format!("<mtable><mtr>{l}<mn>0</mn></mtd></mtr></mtable>", l = LEFT);
    let node = Node::Cases { open: Some('{'), close: Some('}'), reverse: false, children: rows() };
    assert_eq!(show(&node), format!("<mrow><mo>{{</mo>{}</mrow>", body));
    let node = Node::Cases { open: Some('{'), close: Some('}'), reverse: true, children: rows() };
    assert_eq!(show(&node), format!("<mrow>{}<mo>}}</mo></mrow>", body));
    let node = Node::Cases { open: None, close: Some('}'), reverse: false, children: rows() };
    assert_eq!(show(&node), format!("<mrow>{}</mrow>", body));
    let node = Node::Cases { open: Some('{'), close: None, reverse: true, children: rows() };
    assert_eq!(show(&node), format!("<mrow>{}</mrow>", body));
}

#[test]
fn class_override_decides_the_element() {
    let node = Node::Class { class: MathClass::Relation, body: bx(text("a")) };
    assert_eq!(show(&node), "<mo>a</mo>");
    let node = Node::Class { class: MathClass::Normal, body: bx(text("1")) };
    assert_eq!(show(&node), "<mi mathvariant=\"normal\">1</mi>");
    let node = Node::Class { class: MathClass::Binary, body: bx(text("<")) };
    assert_eq!(show(&node), "<mo form=\"infix\">&lt;</mo>");
    let node = Node::Class {
        class: MathClass::Opening,
        body: bx(Node::Fraction { numerator: bx(text("a")), denominator: bx(text("b")) }),
    };
    assert_eq!(
        show(&node),
        "<mo fence=\"true\" form=\"prefix\">&lt;mfrac&gt;&lt;mi&gt;a&lt;/mi&gt;&lt;mi&gt;b&lt;/mi&gt;&lt;/mfrac&gt;</mo>"
    );
}

#[test]
fn primes_repeat_the_prime_sign() {
    assert_eq!(process_primes(0), "<mo></mo>");
    assert_eq!(process_primes(1), "<mo>&#x2032;</mo>");
    assert_eq!(show(&Node::Primes { count: 3 }), "<mo>&#x2032;&#x2032;&#x2032;</mo>");
}

#[test]
fn spacing_keeps_lengths_in_em() {
    assert_eq!(
        process_h(&Spacing::Relative("0.17em".to_string())),
        "<mspace width=\"0.17em\"></mspace>"
    );
    assert_eq!(
        process_h(&Spacing::Relative("10pt".to_string())),
        "<mspace width=\"0.333em\"></mspace>"
    );
    assert_eq!(
        process_h(&Spacing::Relative("50%".to_string())),
        "<mspace width=\"0.333em\"></mspace>"
    );
    assert_eq!(process_h(&Spacing::Fractional), "<mspace width=\"0.333em\"></mspace>");
    assert_eq!(
        show(&Node::HSpace { amount: Spacing::Relative("1em".to_string()) }),
        "<mspace width=\"1em\"></mspace>"
    );
}

#[test]
fn hidden_body_stays_in_the_markup() {
    assert_eq!(
        show(&Node::Hide { body: bx(text("x")) }),
        "<mrow style=\"visibility: hidden;\"><mi>x</mi></mrow>"
    );
}

#[test]
fn stretch_makes_text_a_stretchy_operator() {
    assert_eq!(
        show(&Node::Stretch { body: bx(text("<")) }),
        "<mo stretchy=\"true\">&lt;</mo>"
    );
    assert_eq!(
        show(&Node::Stretch { body: bx(seq(vec![text("a")])) }),
        "<mrow><mi>a</mi></mrow>"
    );
}

#[test]
fn mid_is_a_stretchy_infix_fence() {
    assert_eq!(
        show(&Node::Mid { body: bx(text("|")) }),
        "<mo fence=\"true\" form=\"infix\" stretchy=\"true\">|</mo>"
    );
    assert_eq!(
        show(&Node::Mid { body: bx(seq(vec![text("a")])) }),
        "<mo fence=\"true\" form=\"infix\" stretchy=\"true\"><mrow><mi>a</mi></mrow></mo>"
    );
}

#[test]
fn lines_are_drawn_as_borders() {
    assert_eq!(
        show(&Node::Underline { body: bx(text("x")) }),
        "<mrow style=\"border-bottom: 1px solid currentColor; display: inline-block;\"><mi>x</mi></mrow>"
    );
    assert_eq!(
        show(&Node::Overline { body: bx(text("x")) }),
        "<mrow style=\"border-top: 1px solid currentColor; display: inline-block;\"><mi>x</mi></mrow>"
    );
}

#[test]
fn decorations_pair_the_mark_with_the_body() {
    let marks = [
        (Decoration::Underbrace, "munder", "&#x23DF;"),
        (Decoration::Overbrace, "mover", "&#x23DE;"),
        (Decoration::Underbracket, "munder", "&#x23B5;"),
        (Decoration::Overbracket, "mover", "&#x23B4;"),
        (Decoration::Underparen, "munder", "&#x2323;"),
        (Decoration::Overparen, "mover", "&#x2322;"),
        (Decoration::Undershell, "munder", "&#x23E1;"),
        (Decoration::Overshell, "mover", "&#x23E0;"),
    ];
    for (mark, tag, glyph) in marks {
        let plain = Node::Decorated { mark, body: bx(text("x")), annotation: None };
        assert_eq!(
            show(&plain),
            format!("<{t}><mi>x</mi><mo stretchy=\"true\">{g}</mo></{t}>", t = tag, g = glyph)
        );
        let noted = Node::Decorated { mark, body: bx(text("x")), annotation: some(text("n")) };
        assert_eq!(
            show(&noted),
            format!(
                "<{t}><mi>x</mi><{t}><mo stretchy=\"true\">{g}</mo><mtext><mi>n</mi></mtext></{t}></{t}>",
                t = tag,
                g = glyph
            )
        );
        assert_eq!(decorate(mark, "B", Some("A")), format!(
            "<{t}>B<{t}><mo stretchy=\"true\">{g}</mo><mtext>A</mtext></{t}></{t}>",
            t = tag,
            g = glyph
        ));
    }
}

#[test]
fn markers_render_to_nothing_on_their_own() {
    assert_eq!(show(&Node::Space), "");
    assert_eq!(show(&Node::AlignPoint), "");
    assert_eq!(show(&Node::Linebreak), "<merror>`linebreak` Not Implemented Yet</merror>");
}

#[test]
fn plain_sequence_is_one_inline_group() {
    assert_eq!(show(&seq(vec![])), "<mrow></mrow>");
    assert_eq!(
        show(&seq(vec![text("a"), Node::Space, text("+"), text("1")])),
        "<mrow><mi>a</mi><mo>+</mo><mn>1</mn></mrow>"
    );
}

#[test]
fn one_alignment_point_gives_two_columns() {
    let node = seq(vec![text("a"), Node::AlignPoint, text("="), text("b")]);
    assert_eq!(
        show(&node),
        format!(
            "<mtable><mtr>{r}<mi>a</mi></mtd>{l}<mo>=</mo><mi>b</mi></mtd></mtr></mtable>",
            r = RIGHT,
            l = LEFT
        )
    );
}

#[test]
fn line_breaks_without_alignment_points_give_centred_rows() {
    let node = seq(vec![text("a"), text("b"), Node::Linebreak, text("c")]);
    assert_eq!(
        show(&node),
        format!(
            "<mtable><mtr>{c}<mi>a</mi><mi>b</mi></mtd></mtr><mtr>{c}<mi>c</mi></mtd></mtr></mtable>",
            c = CENTER
        )
    );
    let node = seq(vec![text("a"), Node::Linebreak]);
    assert_eq!(
        show(&node),
        format!("<mtable><mtr>{c}<mi>a</mi></mtd></mtr><mtr>{c}</mtd></mtr></mtable>", c = CENTER)
    );
    let node = seq(vec![Node::Linebreak]);
    assert_eq!(
        show(&node),
        format!("<mtable><mtr>{c}</mtd></mtr><mtr>{c}</mtd></mtr></mtable>", c = CENTER)
    );
}

#[test]
fn aligned_rows_alternate_right_and_left() {
    let node = seq(vec![
        text("a"),
        Node::AlignPoint,
        text("b"),
        Node::Linebreak,
        Node::AlignPoint,
        text("c"),
        Node::AlignPoint,
        Node::AlignPoint,
        text("d"),
        Node::Linebreak,
        text("e"),
    ]);
    assert_eq!(
        show(&node),
        format!(
            "<mtable><mtr>{r}<mi>a</mi></mtd>{l}<mi>b</mi></mtd></mtr><mtr>{r}</mtd>{l}<mi>c</mi></mtd>{r}</mtd>{l}<mi>d</mi></mtd></mtr><mtr>{r}<mi>e</mi></mtd></mtr></mtable>",
            r = RIGHT,
            l = LEFT
        )
    );
}

#[test]
fn summation_keeps_its_limits() {
    let node = attach(text("\u{2211}"), [Some(text("n")), Some(text("i")), None, None, None, None]);
    assert_eq!(
        show(&node),
        "<munderover><mo largeop=\"true\">\u{2211}</mo><mi>i</mi><mi>n</mi></munderover>"
    );
    let node = attach(text("\u{2211}"), [Some(text("n")), None, None, None, None, None]);
    assert_eq!(show(&node), "<mover><mo largeop=\"true\">\u{2211}</mo><mi>n</mi></mover>");
    let node = attach(text("\u{2211}"), [None, Some(text("i")), None, None, None, None]);
    assert_eq!(show(&node), "<munder><mo largeop=\"true\">\u{2211}</mo><mi>i</mi></munder>");
}

#[test]
fn limits_wrapper_operator_and_stretch_keep_scripts_above_and_below() {
    let slots = || [Some(text("2")), Some(text("1")), None, None, None, None];
    let node = attach(Node::Limits { body: bx(text("A")) }, slots());
    assert_eq!(show(&node), "<munderover><mi>A</mi><mn>1</mn><mn>2</mn></munderover>");
    let node = attach(Node::Op { label: bx(text("lim")), limits: true }, slots());
    assert_eq!(show(&node), "<munderover><mo>lim</mo><mn>1</mn><mn>2</mn></munderover>");
    let node = attach(Node::Op { label: bx(text("lim")), limits: false }, slots());
    assert_eq!(show(&node), "<msubsup><mo>lim</mo><mn>1</mn><mn>2</mn></msubsup>");
    let node = attach(Node::Stretch { body: bx(text("=")) }, slots());
    assert_eq!(
        show(&node),
        "<munderover><mo stretchy=\"true\">=</mo><mn>1</mn><mn>2</mn></munderover>"
    );
    let node = attach(Node::Scripts { body: bx(text("\u{2211}")) }, slots());
    assert_eq!(
        show(&node),
        "<munderover><mrow><mo largeop=\"true\">\u{2211}</mo></mrow><mn>1</mn><mn>2</mn></munderover>"
    );
    let node = attach(Node::Equation { body: bx(Node::Limits { body: bx(text("A")) }) }, slots());
    assert_eq!(show(&node), "<msubsup><mi>A</mi><mn>1</mn><mn>2</mn></msubsup>");
}

#[test]
fn four_corners_give_multiscripts() {
    let node = attach(
        text("A"),
        [None, None, Some(text("1")), Some(text("2")), Some(text("3")), Some(text("4"))],
    );
    assert_eq!(
        show(&node),
        "<mmultiscripts><mi>A</mi><mn>4</mn><mn>3</mn><mprescripts /><mn>2</mn><mn>1</mn></mmultiscripts>"
    );
    assert_eq!(show(&attach(text("A"), [None, None, None, None, None, None])), "<mi>A</mi>");
}

#[test]
fn base_with_scripts_takes_over_from_its_parent() {
    let inner = attach(text("a"), [None, None, None, None, None, Some(text("1"))]);
    let node = attach(inner, [None, None, None, None, Some(text("2")), None]);
    assert_eq!(show(&node), "<msubsup><mi>a</mi><mn>1</mn><mn>2</mn></msubsup>");

    let inner = attach(text("a"), [None, None, None, None, Some(text("1")), None]);
    let node = attach(inner, [None, None, None, None, Some(text("2")), None]);
    assert_eq!(show(&node), "<msup><msup><mi>a</mi><mn>1</mn></msup><mn>2</mn></msup>");

    let inner = attach(text("a"), [None, None, None, None, None, Some(text("1"))]);
    let wrapped = Node::Equation { body: bx(Node::Equation { body: bx(inner) }) };
    let node = attach(wrapped, [Some(text("3")), None, None, None, Some(text("2")), None]);
    assert_eq!(
        show(&node),
        "<munderover><mmultiscripts><mi>a</mi><mn>1</mn><mn>2</mn><mprescripts /><mrow></mrow><mrow></mrow></mmultiscripts><mrow></mrow><mn>3</mn></munderover>"
    );

    let innermost = attach(text("a"), [None, None, None, None, None, Some(text("1"))]);
    let middle = attach(innermost, [None, None, None, Some(text("4")), None, Some(text("5"))]);
    let node = attach(middle, [None, None, None, None, Some(text("2")), Some(text("6"))]);
    assert_eq!(
        show(&node),
        "<msub><msub><munderover><mmultiscripts><mi>a</mi><mn>1</mn><mn>2</mn><mprescripts /><mn>4</mn><mrow></mrow></mmultiscripts><mrow></mrow><mrow></mrow></munderover><mn>5</mn></msub><mn>6</mn></msub>"
    );
}

fn shape_by_table(base: &str, s: [Option<&str>; 6]) -> String {
    let [t, b, tl, bl, tr, br] = s;
    let row = |o: Option<&str>| o.unwrap_or("<mrow></mrow>").to_string();
    match (t, b, tl, bl, tr, br) {
        (None, None, Some(tl), Some(bl), Some(tr), Some(br)) => format!(
            "<mmultiscripts>{}{}{}<mprescripts />{}{}</mmultiscripts>",
            base, br, tr, bl, tl
        ),
        (Some(t), Some(b), None, None, None, None) => {
            format!("<munderover>{}{}{}</munderover>", base, b, t)
        }
        (Some(t), None, None, None, None, None) => format!("<mover>{}{}</mover>", base, t),
        (None, Some(b), None, None, None, None) => format!("<munder>{}{}</munder>", base, b),
        (None, None, None, None, Some(tr), Some(br)) => {
            format!("<msubsup>{}{}{}</msubsup>", base, br, tr)
        }
        (None, None, None, None, Some(tr), None) => format!("<msup>{}{}</msup>", base, tr),
        (None, None, None, None, None, Some(br)) => format!("<msub>{}{}</msub>", base, br),
        (None, None, None, None, None, None) => base.to_string(),
        (t, b, tl, bl, tr, br) => format!(
            "<munderover><mmultiscripts>{}{}{}<mprescripts />{}{}</mmultiscripts>{}{}</munderover>",
            base,
            row(br),
            row(tr),
            row(bl),
            row(tl),
            row(b),
            row(t)
        ),
    }
}

fn slots_of(pattern: u32) -> [Option<&'static str>; 6] {
    let names = ["<t/>", "<b/>", "<tl/>", "<bl/>", "<tr/>", "<br/>"];
    let mut slots = [None; 6];
    for i in 0..6 {
        if pattern & (1 << i) != 0 {
            slots[i] = Some(names[i]);
        }
    }
    slots
}

fn attachments(s: [Option<&str>; 6]) -> Attachments {
    let [t, b, tl, bl, tr, br] = s;
    Attachments {
        top: t.map(|x| x.to_string()),
        bottom: b.map(|x| x.to_string()),
        top_left: tl.map(|x| x.to_string()),
        bottom_left: bl.map(|x| x.to_string()),
        top_right: tr.map(|x| x.to_string()),
        bottom_right: br.map(|x| x.to_string()),
    }
}

#[test]
fn every_pattern_of_scripts_has_its_shape() {
    let mut seen = std::collections::BTreeSet::new();
    for pattern in 0..64u32 {
        let slots = slots_of(pattern);
        let expected = shape_by_table("<base/>", slots);
        assert_eq!(resolve_attachment("<base/>", true, false, attachments(slots)), expected);
        assert_eq!(resolve_attachment("<base/>", false, true, attachments(slots)), expected);
        assert_eq!(resolve_attachment("<base/>", true, true, attachments(slots)), expected);
        seen.insert(expected);
    }
    assert_eq!(seen.len(), 64);
}

#[test]
fn every_pattern_is_placed_before_it_is_shaped() {
    for pattern in 0..64u32 {
        let given = slots_of(pattern);
        let mut placed = given;
        if placed[0].is_some() && placed[4].is_none() {
            placed[4] = placed[0].take();
        }
        if placed[1].is_some() && placed[5].is_none() {
            placed[5] = placed[1].take();
        }
        assert_eq!(
            resolve_attachment("<base/>", false, false, attachments(given)),
            shape_by_table("<base/>", placed)
        );
    }
}

#[test]
fn shapes_of_the_listed_patterns() {
    let s = |p: [Option<&str>; 6]| resolve_attachment("B", true, false, attachments(p));
    let x = Some("x");
    let y = Some("y");
    assert_eq!(s([x, y, None, None, None, None]), "<munderover>Byx</munderover>");
    assert_eq!(s([x, None, None, None, None, None]), "<mover>Bx</mover>");
    assert_eq!(s([None, y, None, None, None, None]), "<munder>By</munder>");
    assert_eq!(s([None, None, None, None, x, y]), "<msubsup>Byx</msubsup>");
    assert_eq!(s([None, None, None, None, x, None]), "<msup>Bx</msup>");
    assert_eq!(s([None, None, None, None, None, y]), "<msub>By</msub>");
    assert_eq!(s([None, None, None, None, None, None]), "B");
    assert_eq!(
        s([None, None, Some("1"), Some("2"), Some("3"), Some("4")]),
        "<mmultiscripts>B43<mprescripts />21</mmultiscripts>"
    );
    assert_eq!(
        s([None, None, x, None, None, None]),
        "<munderover><mmultiscripts>B<mrow></mrow><mrow></mrow><mprescripts /><mrow></mrow>x</mmultiscripts><mrow></mrow><mrow></mrow></munderover>"
    );
    assert_eq!(
        s([Some("1"), Some("2"), Some("3"), Some("4"), Some("5"), Some("6")]),
        "<munderover><mmultiscripts>B65<mprescripts />43</mmultiscripts>21</munderover>"
    );
}

#[test]
fn nesting_beyond_the_limit_is_marked() {
    let style = StyleContext::new();
    assert_eq!(render_within(&text("a"), &style, 0), "<merror>Nesting Too Deep</merror>");
    assert_eq!(render_within(&text("a"), &style, 1), "<mi>a</mi>");
    let frac = Node::Fraction { numerator: bx(text("a")), denominator: bx(text("b")) };
    assert_eq!(
        render_within(&frac, &style, 1),
        "<mfrac><merror>Nesting Too Deep</merror><merror>Nesting Too Deep</merror></mfrac>"
    );
    let rows = Node::Cases {
        open: None,
        close: None,
        reverse: false,
        children: vec![seq(vec![text("a")])],
    };
    assert_eq!(
        render_within(&rows, &style, 1),
        format!(
            "<mrow><mtable><mtr>{l}<merror>Nesting Too Deep</merror></mtd></mtr></mtable></mrow>",
            l = LEFT
        )
    );
    let inner = attach(text("a"), [None, None, None, None, None, Some(text("1"))]);
    let outer = attach(inner, [None, None, None, None, Some(text("2")), None]);
    assert_eq!(render_within(&outer, &style, 1), "<merror>Nesting Too Deep</merror>");
    let mut node = text("a");
    for _ in 0..MAX_DEPTH - 1 {
        node = Node::Scripts { body: bx(node) };
    }
    let out = render(&node, &style);
    assert!(out.contains("<mi>a</mi>"));
    assert!(!out.contains("merror"));
    let node = Node::Scripts { body: bx(node) };
    let out = render(&node, &style);
    assert!(out.contains("<merror>Nesting Too Deep</merror>"));
    assert!(!out.contains("<mi>a</mi>"));
}

#[test]
fn every_kind_has_its_element() {
    let kinds: Vec<(Node, &str)> = vec![
        (Node::Fraction { numerator: bx(text("a")), denominator: bx(text("b")) }, "mfrac"),
        (Node::Accent { base: bx(text("a")), accent: '^' }, "mover"),
        (Node::Limits { body: bx(text("a")) }, "mi"),
        (Node::Scripts { body: bx(text("a")) }, "mrow"),
        (seq(vec![text("a")]), "mrow"),
        (Node::Lr { body: bx(text("a")) }, "mrow"),
        (attach(text("a"), [None, None, None, None, Some(text("b")), None]), "msup"),
        (text("a"), "mi"),
        (Node::Root { radicand: bx(text("a")), index: None }, "msqrt"),
        (Node::Binomial { upper: bx(text("a")), lower: vec![text("b")] }, "mfrac"),
        (Node::Cancel { body: bx(text("a")) }, "menclose"),
        (Node::Op { label: bx(text("a")), limits: false }, "mo"),
        (Node::Cases { open: None, close: None, reverse: false, children: vec![text("a")] },
            "mtable"),
        (Node::Matrix { open: None, close: None, align: Alignment::Center,
            rows: vec![vec![text("a")]] }, "mtable"),
        (Node::Vector { open: None, close: None, align: Alignment::Center,
            children: vec![text("a")] }, "mtable"),
        (Node::Class { class: MathClass::Large, body: bx(text("a")) }, "mo"),
        (Node::Equation { body: bx(text("a")) }, "mi"),
        (Node::Primes { count: 1 }, "mo"),
        (Node::Styled { style: StyleOverride::none(), child: bx(text("a")) }, "mi"),
        (Node::HSpace { amount: Spacing::Fractional }, "mspace"),
        (Node::Hide { body: bx(text("a")) }, "mrow"),
        (Node::Stretch { body: bx(text("a")) }, "mo"),
        (Node::Mid { body: bx(text("a")) }, "mo"),
        (Node::Underline { body: bx(text("a")) }, "mrow"),
        (Node::Overline { body: bx(text("a")) }, "mrow"),
        (Node::Decorated { mark: Decoration::Underbrace, body: bx(text("a")), annotation: None },
            "munder"),
        (Node::Decorated { mark: Decoration::Overshell, body: bx(text("a")), annotation: None },
            "mover"),
    ];
    for (node, element) in kinds {
        let out = show(&node);
        assert!(out.contains(&format!("<{}", element)), "{}", out);
        assert!(out.contains(&format!("</{}>", element)), "{}", out);
        assert!(!out.contains("merror"), "{}", out);
    }
}

#[test]
fn document_wraps_the_equation() {
    let equation = Node::Equation { body: bx(seq(vec![text("x")])) };
    assert_eq!(
        render_document(&equation, None, "$x$", false),
        "<math><semantics><mrow><mi>x</mi></mrow></semantics></math>"
    );
    assert_eq!(
        render_document(&equation, None, "$x < 1$", true),
        "<math><semantics><mrow><mi>x</mi></mrow><annotation encoding=\"application/x-typst\">$x < 1$</annotation></semantics></math>"
    );
    let block = StyleOverride { variant: None, bold: None, italic: None, block: Some(true) };
    assert_eq!(
        render_document(&equation, Some(block), "$ x $", false),
        "<math display=\"block\"><semantics><mrow><mi>x</mi></mrow></semantics></math>"
    );
    let bold = StyleOverride { variant: None, bold: Some(true), italic: None, block: Some(false) };
    assert_eq!(
        render_document(&equation, Some(bold), "", false),
        "<math><semantics><mrow><mi>\u{1D431}</mi></mrow></semantics></math>"
    );
}

#[test]
fn evaluation_failures_are_handed_on() {
    assert_eq!(
        convert_to_mathml(Err(EvalMathResult::CompilerInnerError), "$", false),
        Err(EvalMathResult::CompilerInnerError)
    );
    assert_eq!(
        convert_to_mathml(Err(EvalMathResult::NoEquationError), "text", true),
        Err(EvalMathResult::NoEquationError)
    );
    let equation = Node::Equation { body: bx(text("x")) };
    assert_eq!(
        convert_to_mathml(Ok((equation, None)), "$x$", false),
        Ok("<math><semantics><mi>x</mi></semantics></math>".to_string())
    );
}

#[test]
fn depth_beyond_the_nesting_changes_nothing() {
    let style = StyleContext::new();
    let node = Node::Root {
        radicand: bx(Node::Fraction { numerator: bx(text("a")), denominator: bx(text("b")) }),
        index: some(text("3")),
    };
    let full = "<mroot><mfrac><mi>a</mi><mi>b</mi></mfrac><mn>3</mn></mroot>";
    assert_ne!(render_within(&node, &style, 2), full);
    assert_eq!(render_within(&node, &style, 3), full);
    assert_eq!(render_within(&node, &style, 4), full);
    assert_eq!(render_within(&node, &style, MAX_DEPTH), full);
    let inner = attach(text("a"), [None, None, None, None, None, Some(text("1"))]);
    let outer = attach(inner, [None, None, None, None, Some(text("2")), None]);
    assert_eq!(render_within(&outer, &style, 5), render(&outer, &style));
    assert_eq!(render_within(&outer, &style, 5), "<msubsup><mi>a</mi><mn>1</mn><mn>2</mn></msubsup>");
}

#[test]
fn evaluation_without_an_equation_is_a_failure() {
    assert!(matches!(eval(Evaluation::Failed), Err(EvalMathResult::CompilerInnerError)));
    assert!(matches!(
        eval(Evaluation::Evaluated { equation: None, style: None }),
        Err(EvalMathResult::NoEquationError)
    ));
    assert!(matches!(
        eval(Evaluation::Evaluated { equation: None, style: Some(StyleOverride::none()) }),
        Err(EvalMathResult::NoEquationError)
    ));
    let block = StyleOverride { variant: None, bold: None, italic: None, block: Some(true) };
    let outcome = eval(Evaluation::Evaluated {
        equation: Some(Node::Equation { body: bx(text("x")) }),
        style: Some(block),
    });
    assert!(matches!(outcome, Ok((Node::Equation { .. }, Some(_)))));
    assert_eq!(
        convert_to_mathml(outcome, "$ x $", false),
        Ok("<math display=\"block\"><semantics><mi>x</mi></semantics></math>".to_string())
    );
    assert_eq!(
        convert_to_mathml(eval(Evaluation::Failed), "$", true),
        Err(EvalMathResult::CompilerInnerError)
    );
}
