use ratatui::buffer::Buffer;
use ratatui::style::Color as R;
use ratatui::widgets::Widget;
use rtop_rust::layout::{Direction, Rect};
use rtop_rust::style::{Color, Style};
use rtop_rust::text::{Alignment, Line, Span};
use rtop_rust::widgets::barchart::{Bar, BarChart, BarGroup, BarSet, Draw, LabelInfo};
use rtop_rust::widgets::block::{Block, BorderType, Borders, Padding, Position, Title};

const BOLD: u16 = 1;
const ITALIC: u16 = 4;

fn color(c: Color) -> R {
    match c {
        Color::Reset => R::Reset,
        Color::Black => R::Black,
        Color::Red => R::Red,
        Color::Green => R::Green,
        Color::Yellow => R::Yellow,
        Color::Blue => R::Blue,
        Color::Magenta => R::Magenta,
        Color::Cyan => R::Cyan,
        Color::Gray => R::Gray,
        Color::DarkGray => R::DarkGray,
        Color::LightRed => R::LightRed,
        Color::LightGreen => R::LightGreen,
        Color::LightYellow => R::LightYellow,
        Color::LightBlue => R::LightBlue,
        Color::LightMagenta => R::LightMagenta,
        Color::LightCyan => R::LightCyan,
        Color::White => R::White,
        Color::Rgb(r, g, b) => R::Rgb(r, g, b),
        Color::Indexed(i) => R::Indexed(i),
    }
}

fn style(s: Style) -> ratatui::style::Style {
    ratatui::style::Style {
        fg: s.fg.map(color),
        bg: s.bg.map(color),
        underline_color: s.underline_color.map(color),
        add_modifier: ratatui::style::Modifier::from_bits_truncate(s.add_modifier),
        sub_modifier: ratatui::style::Modifier::from_bits_truncate(s.sub_modifier),
    }
}

fn line(l: &Line) -> ratatui::text::Line<'static> {
    let spans: Vec<ratatui::text::Span<'static>> = l
        .spans
        .iter()
        .map(|s| ratatui::text::Span::styled(s.content.clone(), style(s.style)))
        .collect();
    let mut out = ratatui::text::Line::from(spans);
    out.alignment = l.alignment.map(|a| match a {
        Alignment::Left => ratatui::layout::Alignment::Left,
        Alignment::Center => ratatui::layout::Alignment::Center,
        Alignment::Right => ratatui::layout::Alignment::Right,
    });
    out
}

fn rect(r: Rect) -> ratatui::layout::Rect {
    ratatui::layout::Rect { x: r.x, y: r.y, width: r.width, height: r.height }
}

fn to_block(b: &Block) -> ratatui::widgets::Block<'static> {
    let mut borders = ratatui::widgets::Borders::NONE;
    if b.borders.top {
        borders |= ratatui::widgets::Borders::TOP;
    }
    if b.borders.right {
        borders |= ratatui::widgets::Borders::RIGHT;
    }
    if b.borders.bottom {
        borders |= ratatui::widgets::Borders::BOTTOM;
    }
    if b.borders.left {
        borders |= ratatui::widgets::Borders::LEFT;
    }
    let border_type = match b.border_type {
        BorderType::Plain => ratatui::widgets::BorderType::Plain,
        BorderType::Rounded => ratatui::widgets::BorderType::Rounded,
        BorderType::Double => ratatui::widgets::BorderType::Double,
        BorderType::Thick => ratatui::widgets::BorderType::Thick,
        BorderType::QuadrantInside => ratatui::widgets::BorderType::QuadrantInside,
        BorderType::QuadrantOutside => ratatui::widgets::BorderType::QuadrantOutside,
    };
    let mut out = ratatui::widgets::Block::new()
        .title_style(style(b.titles_style))
        .title_alignment(alignment(b.titles_alignment))
        .title_position(position(b.titles_position))
        .borders(borders)
        .border_style(style(b.border_style))
        .border_type(border_type)
        .style(style(b.style))
        .padding(ratatui::widgets::Padding::new(
            b.padding.left,
            b.padding.right,
            b.padding.top,
            b.padding.bottom,
        ));
    for t in &b.titles {
        let mut title = ratatui::widgets::block::Title::from(line(&t.content));
        title.alignment = t.alignment.map(alignment);
        title.position = t.position.map(position);
        out = out.title(title);
    }
    out
}

fn alignment(a: Alignment) -> ratatui::layout::Alignment {
    match a {
        Alignment::Left => ratatui::layout::Alignment::Left,
        Alignment::Center => ratatui::layout::Alignment::Center,
        Alignment::Right => ratatui::layout::Alignment::Right,
    }
}

fn position(p: Position) -> ratatui::widgets::block::Position {
    match p {
        Position::Top => ratatui::widgets::block::Position::Top,
        Position::Bottom => ratatui::widgets::block::Position::Bottom,
    }
}

fn apply(draws: Vec<Draw>, buf: &mut Buffer) {
    for d in draws {
        match d {
            Draw::SetStyle { area, style: s } => buf.set_style(rect(area), style(s)),
            Draw::RenderBlock { block: b, area } => to_block(b).render(rect(area), buf),
            Draw::SetCells { area, symbol, style: s } => {
                for y in area.y..area.y + area.height {
                    for x in area.x..area.x + area.width {
                        buf.get_mut(x, y).set_symbol(symbol).set_style(style(s));
                    }
                }
            }
            Draw::SetString { x, y, text, width, style: s } => {
                buf.set_stringn(x, y, text, width, style(s));
            }
            Draw::SetLine { x, y, line: l, width } => {
                buf.set_line(x, y, &line(&l), width);
            }
        }
    }
}

fn render(chart: &BarChart, area: ratatui::layout::Rect, buf: &mut Buffer) {
    let area = Rect { x: area.x, y: area.y, width: area.width, height: area.height };
    let draws = chart.render(area).expect("the chart fits its 16-bit coordinates");
    apply(draws, buf);
}

fn fg(c: Color) -> Style {
    Style { fg: Some(c), ..Style::new() }
}

fn pairs_group(pairs: &[(&str, u64)]) -> BarGroup {
    BarGroup::from(pairs)
}

fn nine_values() -> BarGroup {
    pairs_group(&[
        ("a", 0),
        ("b", 1),
        ("c", 2),
        ("d", 3),
        ("e", 4),
        ("f", 5),
        ("g", 6),
        ("h", 7),
        ("i", 8),
    ])
}

fn three_levels() -> BarSet {
    let s = ratatui::symbols::bar::THREE_LEVELS;
    BarSet {
        full: s.full,
        seven_eighths: s.seven_eighths,
        three_quarters: s.three_quarters,
        five_eighths: s.five_eighths,
        half: s.half,
        three_eighths: s.three_eighths,
        one_quarter: s.one_quarter,
        one_eighth: s.one_eighth,
        empty: s.empty,
    }
}

#[test]
fn default() {
    let mut buffer = Buffer::empty(ratatui::layout::Rect::new(0, 0, 10, 3));
    let widget = BarChart::default();
    render(&widget, buffer.area, &mut buffer);
    assert_eq!(buffer, Buffer::with_lines(vec!["          "; 3]));
}

#[test]
fn data() {
    let mut buffer = Buffer::empty(ratatui::layout::Rect::new(0, 0, 15, 3));
    let widget = BarChart::default().data(pairs_group(&[("foo", 1), ("bar", 2)]));
    render(&widget, buffer.area, &mut buffer);
    assert_eq!(
        buffer,
        Buffer::with_lines(vec!["  █            ", "1 2            ", "f b            "])
    );
}

#[test]
fn block() {
    let mut buffer = Buffer::empty(ratatui::layout::Rect::new(0, 0, 15, 5));
    let block = Block::default()
        .title(Title::raw("Block"))
        .border_type(BorderType::Double)
        .borders(Borders::all());
    let widget = BarChart::default().data(pairs_group(&[("foo", 1), ("bar", 2)])).block(block);
    render(&widget, buffer.area, &mut buffer);
    assert_eq!(
        buffer,
        Buffer::with_lines(vec![
            "╔Block════════╗",
            "║  █          ║",
            "║1 2          ║",
            "║f b          ║",
            "╚═════════════╝",
        ])
    );
}

#[test]
fn max() {
    let mut buffer = Buffer::empty(ratatui::layout::Rect::new(0, 0, 15, 3));
    let without_max = BarChart::default().data(pairs_group(&[("foo", 1), ("bar", 2), ("baz", 100)]));
    render(&without_max, buffer.area, &mut buffer);
    assert_eq!(
        buffer,
        Buffer::with_lines(vec!["    █          ", "    █          ", "f b b          "])
    );
    let with_max = BarChart::default()
        .data(pairs_group(&[("foo", 1), ("bar", 2), ("baz", 100)]))
        .max(2);
    render(&with_max, buffer.area, &mut buffer);
    assert_eq!(
        buffer,
        Buffer::with_lines(vec!["  █ █          ", "1 2 █          ", "f b b          "])
    );
}

#[test]
fn bar_style() {
    let mut buffer = Buffer::empty(ratatui::layout::Rect::new(0, 0, 15, 3));
    let widget = BarChart::default()
        .data(pairs_group(&[("foo", 1), ("bar", 2)]))
        .bar_style(fg(Color::Red));
    render(&widget, buffer.area, &mut buffer);
    let mut expected =
        Buffer::with_lines(vec!["  █            ", "1 2            ", "f b            "]);
    for x in [0, 2] {
        for y in [0, 1] {
            expected.get_mut(x, y).set_fg(ratatui::style::Color::Red);
        }
    }
    assert_eq!(buffer, expected);
}

#[test]
fn bar_width() {
    let mut buffer = Buffer::empty(ratatui::layout::Rect::new(0, 0, 15, 3));
    let widget = BarChart::default().data(pairs_group(&[("foo", 1), ("bar", 2)])).bar_width(3);
    render(&widget, buffer.area, &mut buffer);
    assert_eq!(
        buffer,
        Buffer::with_lines(vec!["    ███        ", "█1█ █2█        ", "foo bar        "])
    );
}

#[test]
fn bar_gap() {
    let mut buffer = Buffer::empty(ratatui::layout::Rect::new(0, 0, 15, 3));
    let widget = BarChart::default().data(pairs_group(&[("foo", 1), ("bar", 2)])).bar_gap(2);
    render(&widget, buffer.area, &mut buffer);
    assert_eq!(
        buffer,
        Buffer::with_lines(vec!["   █           ", "1  2           ", "f  b           "])
    );
}

#[test]
fn bar_set() {
    let mut buffer = Buffer::empty(ratatui::layout::Rect::new(0, 0, 15, 3));
    let widget = BarChart::default()
        .data(pairs_group(&[("foo", 0), ("bar", 1), ("baz", 3)]))
        .bar_set(three_levels());
    render(&widget, buffer.area, &mut buffer);
    assert_eq!(
        buffer,
        Buffer::with_lines(vec!["    █          ", "  ▄ 3          ", "f b b          "])
    );
}

#[test]
fn bar_set_nine_levels() {
    let mut buffer = Buffer::empty(ratatui::layout::Rect::new(0, 0, 18, 3));
    let widget = BarChart::default().data(nine_values());
    render(&widget, ratatui::layout::Rect::new(0, 1, 18, 2), &mut buffer);
    assert_eq!(
        buffer,
        Buffer::with_lines(vec![
            "                  ",
            "  ▁ ▂ ▃ ▄ ▅ ▆ ▇ 8 ",
            "a b c d e f g h i ",
        ])
    );
}

#[test]
fn value_style() {
    let mut buffer = Buffer::empty(ratatui::layout::Rect::new(0, 0, 15, 3));
    let widget = BarChart::default()
        .data(pairs_group(&[("foo", 1), ("bar", 2)]))
        .bar_width(3)
        .value_style(fg(Color::Red));
    render(&widget, buffer.area, &mut buffer);
    let mut expected =
        Buffer::with_lines(vec!["    ███        ", "█1█ █2█        ", "foo bar        "]);
    expected.get_mut(1, 1).set_fg(ratatui::style::Color::Red);
    expected.get_mut(5, 1).set_fg(ratatui::style::Color::Red);
    assert_eq!(buffer, expected);
}

#[test]
fn label_style() {
    let mut buffer = Buffer::empty(ratatui::layout::Rect::new(0, 0, 15, 3));
    let widget = BarChart::default()
        .data(pairs_group(&[("foo", 1), ("bar", 2)]))
        .label_style(fg(Color::Red));
    render(&widget, buffer.area, &mut buffer);
    let mut expected =
        Buffer::with_lines(vec!["  █            ", "1 2            ", "f b            "]);
    expected.get_mut(0, 2).set_fg(ratatui::style::Color::Red);
    expected.get_mut(2, 2).set_fg(ratatui::style::Color::Red);
    assert_eq!(buffer, expected);
}

#[test]
fn style_covers_whole_area() {
    let mut buffer = Buffer::empty(ratatui::layout::Rect::new(0, 0, 15, 3));
    let widget = BarChart::default()
        .data(pairs_group(&[("foo", 1), ("bar", 2)]))
        .style(fg(Color::Red));
    render(&widget, buffer.area, &mut buffer);
    let mut expected =
        Buffer::with_lines(vec!["  █            ", "1 2            ", "f b            "]);
    for x in 0..15 {
        for y in 0..3 {
            expected.get_mut(x, y).set_fg(ratatui::style::Color::Red);
        }
    }
    assert_eq!(buffer, expected);
}

#[test]
fn test_empty_group() {
    let chart = BarChart::default()
        .data(BarGroup::default().label(Line::raw("invisible")))
        .data(
            BarGroup::default()
                .label(Line::raw("G"))
                .bars(&[Bar::default().value(1), Bar::default().value(2)]),
        );
    let mut buffer = Buffer::empty(ratatui::layout::Rect::new(0, 0, 3, 3));
    render(&chart, buffer.area, &mut buffer);
    assert_eq!(buffer, Buffer::with_lines(vec!["  █", "1 2", "G  "]));
}

fn build_test_barchart() -> BarChart {
    BarChart::default()
        .data(BarGroup::default().label(Line::raw("G1")).bars(&[
            Bar::default().value(2),
            Bar::default().value(3),
            Bar::default().value(4),
        ]))
        .data(BarGroup::default().label(Line::raw("G2")).bars(&[
            Bar::default().value(3),
            Bar::default().value(4),
            Bar::default().value(5),
        ]))
        .group_gap(1)
        .direction(Direction::Horizontal)
        .bar_gap(0)
}

#[test]
fn test_horizontal_bars() {
    let chart = build_test_barchart();
    let mut buffer = Buffer::empty(ratatui::layout::Rect::new(0, 0, 5, 8));
    render(&chart, buffer.area, &mut buffer);
    let expected = Buffer::with_lines(vec![
        "2█   ", "3██  ", "4███ ", "G1   ", "3██  ", "4███ ", "5████", "G2   ",
    ]);
    assert_eq!(buffer, expected);
}

#[test]
fn test_horizontal_bars_no_space_for_group_label() {
    let chart = build_test_barchart();
    let mut buffer = Buffer::empty(ratatui::layout::Rect::new(0, 0, 5, 7));
    render(&chart, buffer.area, &mut buffer);
    let expected =
        Buffer::with_lines(vec!["2█   ", "3██  ", "4███ ", "G1   ", "3██  ", "4███ ", "5████"]);
    assert_eq!(buffer, expected);
}

#[test]
fn test_horizontal_bars_no_space_for_all_bars() {
    let chart = build_test_barchart();
    let mut buffer = Buffer::empty(ratatui::layout::Rect::new(0, 0, 5, 5));
    render(&chart, buffer.area, &mut buffer);
    let expected = Buffer::with_lines(vec!["2█   ", "3██  ", "4███ ", "G1   ", "3██  "]);
    assert_eq!(buffer, expected);
}

fn horizontal_bars_label_width_greater_than_bar(bar_color: Option<Color>) {
    let mut bar = Bar::default()
        .value(2)
        .text_value("label".to_string())
        .value_style(fg(Color::Red));
    if let Some(c) = bar_color {
        bar = bar.style(fg(c));
    }
    let chart = BarChart::default()
        .data(BarGroup::default().bars(&[bar, Bar::default().value(5)]))
        .direction(Direction::Horizontal)
        .bar_style(fg(Color::Yellow))
        .value_style(Style { add_modifier: ITALIC, ..Style::new() })
        .bar_gap(0);
    let mut buffer = Buffer::empty(ratatui::layout::Rect::new(0, 0, 5, 2));
    render(&chart, buffer.area, &mut buffer);

    let mut expected = Buffer::with_lines(vec!["label", "5████"]);
    expected.get_mut(0, 1).modifier.insert(ratatui::style::Modifier::ITALIC);
    for x in 0..5 {
        expected.get_mut(x, 1).set_fg(ratatui::style::Color::Yellow);
    }
    let expected_color = match bar_color {
        Some(c) => color(c),
        None => ratatui::style::Color::Yellow,
    };
    let cell = expected.get_mut(0, 0).set_fg(ratatui::style::Color::Red);
    cell.modifier.insert(ratatui::style::Modifier::ITALIC);
    let cell = expected.get_mut(1, 0).set_fg(ratatui::style::Color::Red);
    cell.modifier.insert(ratatui::style::Modifier::ITALIC);
    expected.get_mut(2, 0).set_fg(expected_color);
    expected.get_mut(3, 0).set_fg(expected_color);
    expected.get_mut(4, 0).set_fg(expected_color);
    assert_eq!(buffer, expected);
}

#[test]
fn test_horizontal_bars_label_width_greater_than_bar_without_style() {
    horizontal_bars_label_width_greater_than_bar(None);
}

#[test]
fn test_horizontal_bars_label_width_greater_than_bar_with_style() {
    horizontal_bars_label_width_greater_than_bar(Some(Color::White));
}

#[test]
fn test_horizontal_label() {
    let chart = BarChart::default()
        .direction(Direction::Horizontal)
        .bar_gap(0)
        .data(pairs_group(&[("Jan", 10), ("Feb", 20), ("Mar", 5)]));
    let mut buffer = Buffer::empty(ratatui::layout::Rect::new(0, 0, 10, 3));
    render(&chart, buffer.area, &mut buffer);
    let expected = Buffer::with_lines(vec!["Jan 10█   ", "Feb 20████", "Mar 5     "]);
    assert_eq!(buffer, expected);
}

#[test]
fn test_group_label_style() {
    let label = Line {
        spans: vec![Span { content: "G1".to_string(), style: fg(Color::Red) }],
        alignment: None,
    };
    let chart = BarChart::default()
        .data(BarGroup::default().label(label).bars(&[Bar::default().value(2)]))
        .group_gap(1)
        .direction(Direction::Horizontal)
        .label_style(Style { fg: Some(Color::Yellow), add_modifier: BOLD, ..Style::new() });
    let mut buffer = Buffer::empty(ratatui::layout::Rect::new(0, 0, 5, 2));
    render(&chart, buffer.area, &mut buffer);
    let mut expected = Buffer::with_lines(vec!["2████", "G1   "]);
    let cell = expected.get_mut(0, 1).set_fg(ratatui::style::Color::Red);
    cell.modifier.insert(ratatui::style::Modifier::BOLD);
    let cell = expected.get_mut(1, 1).set_fg(ratatui::style::Color::Red);
    cell.modifier.insert(ratatui::style::Modifier::BOLD);
    assert_eq!(buffer, expected);
}

#[test]
fn test_group_label_center() {
    let group = pairs_group(&[("a", 1), ("b", 2), ("c", 3), ("c", 4)]);
    let chart = BarChart::default()
        .data(group.clone().label(Line::raw("G1").alignment(Alignment::Center)))
        .data(group.label(Line::raw("G2").alignment(Alignment::Center)));
    let mut buffer = Buffer::empty(ratatui::layout::Rect::new(0, 0, 13, 5));
    render(&chart, buffer.area, &mut buffer);
    assert_eq!(
        buffer,
        Buffer::with_lines(vec![
            "    ▂ █     ▂",
            "  ▄ █ █   ▄ █",
            "▆ 2 3 4 ▆ 2 3",
            "a b c c a b c",
            "  G1     G2  ",
        ])
    );
}

#[test]
fn test_group_label_right() {
    let chart = BarChart::default().data(
        BarGroup::default()
            .label(Line::raw("G").alignment(Alignment::Right))
            .bars(&[Bar::default().value(2), Bar::default().value(5)]),
    );
    let mut buffer = Buffer::empty(ratatui::layout::Rect::new(0, 0, 3, 3));
    render(&chart, buffer.area, &mut buffer);
    assert_eq!(buffer, Buffer::with_lines(vec!["  █", "▆ 5", "  G"]));
}

#[test]
fn test_unicode_as_value() {
    let group = BarGroup::default().bars(&[
        Bar::default().value(123).label(Line::raw("B1")).text_value("写".to_string()),
        Bar::default().value(321).label(Line::raw("B2")).text_value("写".to_string()),
        Bar::default().value(333).label(Line::raw("B2")).text_value("写".to_string()),
    ]);
    let chart = BarChart::default().data(group).bar_width(3).bar_gap(1);
    let mut buffer = Buffer::empty(ratatui::layout::Rect::new(0, 0, 11, 5));
    render(&chart, buffer.area, &mut buffer);
    let expected = Buffer::with_lines(vec![
        "    ▆▆▆ ███",
        "    ███ ███",
        "▃▃▃ ███ ███",
        "写█ 写█ 写█",
        "B1  B2  B2 ",
    ]);
    assert_eq!(buffer, expected);
}

#[test]
fn handles_zero_width() {
    let chart = BarChart::default().data(pairs_group(&[("A", 1)])).bar_width(0).bar_gap(0);
    let mut buffer = Buffer::empty(ratatui::layout::Rect::new(0, 0, 0, 10));
    render(&chart, buffer.area, &mut buffer);
    assert_eq!(buffer, Buffer::empty(ratatui::layout::Rect::new(0, 0, 0, 10)));
}

#[test]
fn single_line() {
    let chart = BarChart::default().data(nine_values().label(Line::raw("Group")));
    let mut buffer = Buffer::empty(ratatui::layout::Rect::new(0, 0, 17, 1));
    render(&chart, buffer.area, &mut buffer);
    assert_eq!(buffer, Buffer::with_lines(vec!["  ▁ ▂ ▃ ▄ ▅ ▆ ▇ 8"]));
}

#[test]
fn two_lines() {
    let chart = BarChart::default().data(nine_values().label(Line::raw("Group")));
    let mut buffer = Buffer::empty(ratatui::layout::Rect::new(0, 0, 17, 3));
    render(&chart, ratatui::layout::Rect::new(0, 1, 17, 2), &mut buffer);
    assert_eq!(
        buffer,
        Buffer::with_lines(vec!["                 ", "  ▁ ▂ ▃ ▄ ▅ ▆ ▇ 8", "a b c d e f g h i"])
    );
}

#[test]
fn three_lines() {
    let chart = BarChart::default()
        .data(nine_values().label(Line::raw("Group").alignment(Alignment::Center)));
    let mut buffer = Buffer::empty(ratatui::layout::Rect::new(0, 0, 17, 3));
    render(&chart, buffer.area, &mut buffer);
    assert_eq!(
        buffer,
        Buffer::with_lines(vec!["  ▁ ▂ ▃ ▄ ▅ ▆ ▇ 8", "a b c d e f g h i", "      Group      "])
    );
}

#[test]
fn three_lines_double_width() {
    let chart = BarChart::default()
        .data(nine_values().label(Line::raw("Group").alignment(Alignment::Center)))
        .bar_width(2);
    let mut buffer = Buffer::empty(ratatui::layout::Rect::new(0, 0, 26, 3));
    render(&chart, buffer.area, &mut buffer);
    assert_eq!(
        buffer,
        Buffer::with_lines(vec![
            "   1▁ 2▂ 3▃ 4▄ 5▅ 6▆ 7▇ 8█",
            "a  b  c  d  e  f  g  h  i ",
            "          Group           ",
        ])
    );
}

#[test]
fn four_lines() {
    let chart = BarChart::default()
        .data(nine_values().label(Line::raw("Group").alignment(Alignment::Center)));
    let mut buffer = Buffer::empty(ratatui::layout::Rect::new(0, 0, 17, 4));
    render(&chart, buffer.area, &mut buffer);
    assert_eq!(
        buffer,
        Buffer::with_lines(vec![
            "          ▂ ▄ ▆ █",
            "  ▂ ▄ ▆ 4 5 6 7 8",
            "a b c d e f g h i",
            "      Group      ",
        ])
    );
}

#[test]
fn two_lines_without_bar_labels() {
    let bars: Vec<Bar> = (0..9).map(|i| Bar::default().value(i)).collect();
    let group =
        BarGroup::default().label(Line::raw("Group").alignment(Alignment::Center)).bars(&bars);
    let chart = BarChart::default().data(group);
    let mut buffer = Buffer::empty(ratatui::layout::Rect::new(0, 0, 17, 3));
    render(&chart, ratatui::layout::Rect::new(0, 1, 17, 2), &mut buffer);
    assert_eq!(
        buffer,
        Buffer::with_lines(vec!["                 ", "  ▁ ▂ ▃ ▄ ▅ ▆ ▇ 8", "      Group      "])
    );
}

#[test]
fn one_lines_with_more_bars() {
    let bars: Vec<Bar> = (0..30).map(|i| Bar::default().value(i)).collect();
    let chart = BarChart::default().data(BarGroup::default().bars(&bars));
    let mut buffer = Buffer::empty(ratatui::layout::Rect::new(0, 0, 59, 1));
    render(&chart, buffer.area, &mut buffer);
    assert_eq!(
        buffer,
        Buffer::with_lines(vec![
            "        ▁ ▁ ▁ ▁ ▂ ▂ ▂ ▃ ▃ ▃ ▃ ▄ ▄ ▄ ▄ ▅ ▅ ▅ ▆ ▆ ▆ ▆ ▇ ▇ ▇ █",
        ])
    );
}

#[test]
fn first_bar_of_the_group_is_half_outside_view() {
    let chart = BarChart::default()
        .data(pairs_group(&[("a", 1), ("b", 2)]))
        .data(pairs_group(&[("a", 1), ("b", 2)]))
        .bar_width(2);
    let mut buffer = Buffer::empty(ratatui::layout::Rect::new(0, 0, 7, 6));
    render(&chart, buffer.area, &mut buffer);
    assert_eq!(
        buffer,
        Buffer::with_lines(vec!["   ██  ", "   ██  ", "▄▄ ██  ", "██ ██  ", "1█ 2█  ", "a  b   "])
    );
}

#[test]
fn empty_groups_are_not_added() {
    let chart = BarChart::default().data(BarGroup::default()).data(pairs_group(&[("a", 3)]));
    assert_eq!(chart.maximum_data_value(), 3);
    let t = chart.group_ticks(10, 2).unwrap();
    assert_eq!(t, vec![vec![16]]);
}

#[test]
fn maximum_data_value_is_at_least_one() {
    let chart = BarChart::default();
    assert_eq!(chart.maximum_data_value(), 1);
    let chart = BarChart::default().data(pairs_group(&[("a", 0)]));
    assert_eq!(chart.maximum_data_value(), 1);
    let chart = BarChart::default().data(pairs_group(&[("a", 7), ("b", 12)])).max(5);
    assert_eq!(chart.maximum_data_value(), 5);
    let chart = BarChart::default()
        .data(pairs_group(&[("a", 7), ("b", 12)]))
        .data(pairs_group(&[("c", 40)]));
    assert_eq!(chart.maximum_data_value(), 40);
}

#[test]
fn label_info_counts_rows() {
    let unlabeled = BarChart::default().data(BarGroup::default().bars(&[Bar::default().value(1)]));
    assert_eq!(
        unlabeled.label_info(5),
        LabelInfo { group_label_visible: false, bar_label_visible: false, height: 0 }
    );
    let bar_labels = BarChart::default().data(pairs_group(&[("a", 1)]));
    assert_eq!(
        bar_labels.label_info(0),
        LabelInfo { group_label_visible: false, bar_label_visible: false, height: 0 }
    );
    assert_eq!(
        bar_labels.label_info(1),
        LabelInfo { group_label_visible: false, bar_label_visible: true, height: 1 }
    );
    let both = BarChart::default().data(pairs_group(&[("a", 1)]).label(Line::raw("G")));
    assert_eq!(
        both.label_info(1),
        LabelInfo { group_label_visible: false, bar_label_visible: true, height: 1 }
    );
    assert_eq!(
        both.label_info(2),
        LabelInfo { group_label_visible: true, bar_label_visible: true, height: 2 }
    );
    let group_only =
        BarChart::default().data(BarGroup::default().label(Line::raw("G")).bars(&[Bar::default()]));
    assert_eq!(
        group_only.label_info(1),
        LabelInfo { group_label_visible: true, bar_label_visible: false, height: 1 }
    );
}

#[test]
fn group_ticks_cut_the_group_that_does_not_fit() {
    let chart = BarChart::default()
        .data(pairs_group(&[("a", 1), ("b", 2)]))
        .data(pairs_group(&[("a", 1), ("b", 2)]))
        .bar_width(2);
    assert_eq!(chart.group_ticks(7, 4).unwrap(), vec![vec![16, 32]]);
    assert_eq!(chart.group_ticks(8, 4).unwrap(), vec![vec![16, 32], vec![16]]);
    assert_eq!(chart.group_ticks(0, 4).unwrap(), Vec::<Vec<u64>>::new());
}

#[test]
fn group_ticks_report_overflow() {
    let chart = BarChart::default().data(pairs_group(&[("a", u64::MAX)]));
    assert!(chart.group_ticks(10, 2).is_none());
    let wide = BarChart::default().data(pairs_group(&[("a", 1), ("b", 1)])).bar_width(40000);
    assert!(wide.group_ticks(100, 2).is_none());
}

#[test]
fn render_reports_overflow_at_the_edge() {
    let chart = BarChart::default().data(pairs_group(&[("a", 1), ("b", 2)]));
    assert!(chart.render(Rect { x: 65534, y: 0, width: 1, height: 3 }).is_none());
    assert!(chart.render(Rect { x: 0, y: 0, width: 10, height: 3 }).is_some());
}

#[test]
fn horizontal_value_cut_inside_a_character_is_refused() {
    let chart = BarChart::default()
        .direction(Direction::Horizontal)
        .data(BarGroup::default().bars(&[
            Bar::default().value(1).text_value("éé".to_string()),
            Bar::default().value(8),
        ]));
    let draws = chart.render(Rect { x: 0, y: 0, width: 8, height: 3 });
    assert!(draws.is_none());
}

#[test]
fn value_text_is_the_decimal_value() {
    let chart = BarChart::default().data(pairs_group(&[("a", 1234)])).bar_width(6);
    let draws = chart.render(Rect { x: 0, y: 0, width: 6, height: 3 }).unwrap();
    let texts: Vec<String> = draws
        .into_iter()
        .filter_map(|d| match d {
            Draw::SetString { text, .. } => Some(text),
            _ => None,
        })
        .collect();
    assert_eq!(texts, vec!["1234".to_string()]);
}

#[test]
fn label_width_counts_columns() {
    let l = Line::raw("写写");
    assert_eq!(l.width(), 4);
    let l = Line {
        spans: vec![
            Span { content: "ab".to_string(), style: Style::new() },
            Span { content: "写".to_string(), style: Style::new() },
        ],
        alignment: None,
    };
    assert_eq!(l.width(), 4);
}

#[test]
fn style_patch_lays_over() {
    let base = Style { fg: Some(Color::Red), bg: Some(Color::Blue), add_modifier: BOLD, ..Style::new() };
    let top = Style { fg: Some(Color::Green), sub_modifier: BOLD, add_modifier: ITALIC, ..Style::new() };
    let r = base.patch(top);
    assert_eq!(r.fg, Some(Color::Green));
    assert_eq!(r.bg, Some(Color::Blue));
    assert_eq!(r.add_modifier, ITALIC);
    assert_eq!(r.sub_modifier, BOLD);
    assert_eq!(base.patch(Style::new()), base);
    assert_eq!(Style::default(), Style::new());
}

#[test]
fn ui_layout_puts_the_chart_in_the_right_column() {
    let area = Rect { x: 0, y: 0, width: 100, height: 20 };
    let (chart, chart_area) = rtop_rust::ui::render(area);
    let expected = ratatui::layout::Layout::default()
        .direction(ratatui::layout::Direction::Horizontal)
        .margin(1)
        .constraints([
            ratatui::layout::Constraint::Percentage(20),
            ratatui::layout::Constraint::Percentage(80),
        ])
        .split(ratatui::layout::Rect::new(0, 0, 100, 20));
    assert_eq!(rect(chart_area), expected[1]);
    assert_ne!(rect(chart_area), rect(area));
    assert_eq!(chart.maximum_data_value(), 50);
    assert_eq!(chart.label_info(3).height, 1);
}

#[test]
fn set_style_replaces_the_chart_style() {
    let chart = BarChart::default().set_style(fg(Color::Cyan));
    let draws = chart.render(Rect { x: 2, y: 3, width: 4, height: 5 }).unwrap();
    assert_eq!(draws.len(), 1);
    match &draws[0] {
        Draw::SetStyle { area, style } => {
            assert_eq!(*area, Rect { x: 2, y: 3, width: 4, height: 5 });
            assert_eq!(*style, fg(Color::Cyan));
        }
        _ => panic!("the first step lays the chart's style over the area"),
    }
}

#[test]
fn style_patch_is_associative() {
    let a = Style { fg: Some(Color::Red), add_modifier: BOLD, sub_modifier: ITALIC, ..Style::new() };
    let b = Style { bg: Some(Color::Blue), add_modifier: ITALIC, ..Style::new() };
    let c = Style { fg: Some(Color::Indexed(7)), sub_modifier: BOLD | ITALIC, ..Style::new() };
    assert_eq!(a.patch(b).patch(c), a.patch(b.patch(c)));
    assert_eq!(Style::new().patch(a), a);
}

#[test]
fn cells_stay_inside_the_area() {
    let charts = vec![
        build_test_barchart(),
        BarChart::default()
            .data(pairs_group(&[("a", 1), ("b", 2), ("c", 9)]))
            .data(pairs_group(&[("d", 4), ("e", 5)]))
            .bar_width(3)
            .group_gap(2),
        BarChart::default()
            .data(pairs_group(&[("long label", 3), ("x", 7)]))
            .direction(Direction::Horizontal)
            .bar_width(2),
    ];
    for chart in &charts {
        for (w, h) in [(5u16, 5u16), (7, 3), (13, 9), (30, 2), (1, 1)] {
            let area = Rect { x: 3, y: 2, width: w, height: h };
            if let Some(draws) = chart.render(area) {
                for d in &draws {
                    if let Draw::SetCells { area: a, .. } = d {
                        assert!(a.x >= area.x && a.y >= area.y);
                        assert!(a.x + a.width <= area.x + area.width);
                        assert!(a.y + a.height <= area.y + area.height);
                    }
                }
            }
        }
    }
}

#[test]
fn a_bar_at_the_maximum_fills_its_length() {
    let chart = BarChart::default().data(pairs_group(&[("a", 5), ("b", 10), ("c", 0)]));
    assert_eq!(chart.group_ticks(20, 3).unwrap(), vec![vec![12, 24, 0]]);
    let capped = BarChart::default().data(pairs_group(&[("a", 5), ("b", 10)])).max(5);
    assert_eq!(capped.group_ticks(20, 3).unwrap(), vec![vec![24, 48]]);
}

#[test]
fn block_inner_agrees_with_the_terminal_block() {
    let areas = [
        Rect { x: 0, y: 0, width: 0, height: 0 },
        Rect { x: 3, y: 4, width: 1, height: 1 },
        Rect { x: 2, y: 1, width: 10, height: 6 },
        Rect { x: 65530, y: 65534, width: 5, height: 1 },
    ];
    let sides = [
        Borders::none(),
        Borders::all(),
        Borders { top: false, right: true, bottom: true, left: false },
        Borders { top: false, right: false, bottom: false, left: true },
    ];
    for area in areas {
        for b in sides {
            for pad in [Padding::zero(), Padding::new(1, 2, 3, 0), Padding::new(70, 0, 0, 9)] {
                for with_title in [None, Some(Position::Top), Some(Position::Bottom)] {
                    let mut blk = Block::new().borders(b).padding(pad);
                    if let Some(p) = with_title {
                        blk = blk.title(Title::raw("t").position(p));
                    }
                    let expected = to_block(&blk).inner(rect(area));
                    assert_eq!(rect(blk.inner(area)), expected);
                }
            }
        }
    }
}

#[test]
fn block_with_bottom_title_and_padding() {
    let blk = Block::new()
        .borders(Borders::all())
        .title(Title::raw("T").position(Position::Bottom))
        .padding(Padding::new(1, 1, 1, 0));
    let inner = blk.inner(Rect { x: 0, y: 0, width: 10, height: 8 });
    assert_eq!(inner, Rect { x: 2, y: 2, width: 6, height: 5 });
    assert!(blk.have_title_at_position(Position::Bottom));
    assert!(!blk.have_title_at_position(Position::Top));
}

#[test]
fn block_paddings_past_u16_refuse_to_draw() {
    let blk = Block::new().padding(Padding::new(65535, 2, 0, 0));
    let chart = BarChart::default().data(pairs_group(&[("a", 1)])).block(blk);
    assert!(chart.render(Rect { x: 0, y: 0, width: 5, height: 5 }).is_none());
}

#[test]
fn empty_inner_area_draws_no_bars() {
    let blk = Block::new().borders(Borders::all());
    let chart = BarChart::default().data(pairs_group(&[("a", 1)])).block(blk);
    let draws = chart.render(Rect { x: 0, y: 0, width: 2, height: 2 }).unwrap();
    assert_eq!(draws.len(), 2);
    assert!(matches!(draws[0], Draw::SetStyle { .. }));
    assert!(matches!(draws[1], Draw::RenderBlock { .. }));
}

#[test]
fn more_room_never_hides_or_changes_a_bar() {
    let chart = BarChart::default()
        .data(pairs_group(&[("a", 3), ("b", 7), ("c", 1)]))
        .data(pairs_group(&[("d", 5), ("e", 2)]))
        .data(pairs_group(&[("f", 9)]))
        .bar_width(2)
        .group_gap(1);
    for small in 0..30u16 {
        for large in small..30u16 {
            let a = chart.group_ticks(small, 5).unwrap();
            let b = chart.group_ticks(large, 5).unwrap();
            assert!(a.len() <= b.len());
            for (ra, rb) in a.iter().zip(b.iter()) {
                assert!(ra.len() <= rb.len());
                assert_eq!(ra[..], rb[..ra.len()]);
            }
        }
    }
}

#[test]
fn a_clone_draws_the_same_chart() {
    let blk = Block::new().borders(Borders::all()).title(Title::raw("x"));
    let chart = BarChart::default()
        .data(pairs_group(&[("a", 3), ("b", 7)]))
        .block(blk)
        .bar_width(2);
    let copy = chart.clone();
    assert_eq!(copy, chart);
    let area = Rect { x: 0, y: 0, width: 12, height: 6 };
    let mut b1 = Buffer::empty(rect(area));
    let mut b2 = Buffer::empty(rect(area));
    apply(chart.render(area).unwrap(), &mut b1);
    apply(copy.render(area).unwrap(), &mut b2);
    assert_eq!(b1, b2);
}

#[test]
fn get_style_returns_the_chart_style() {
    let chart = BarChart::default().style(fg(Color::Red));
    assert_eq!(chart.get_style(), fg(Color::Red));
    assert_eq!(chart.set_style(fg(Color::Blue)).get_style(), fg(Color::Blue));
}

#[test]
fn texts_stay_inside_the_area() {
    let labelled = BarGroup::from(&[("a", 1u64), ("bb", 20), ("ccc", 300)][..])
        .label(Line::raw("group").alignment(Alignment::Right));
    let charts = vec![
        build_test_barchart(),
        BarChart::default().data(labelled).bar_width(3).group_gap(1),
        BarChart::default()
            .data(pairs_group(&[("long label", 3), ("x", 7)]))
            .data(pairs_group(&[("y", 12)]).label(Line::raw("G").alignment(Alignment::Center)))
            .direction(Direction::Horizontal)
            .bar_width(2)
            .group_gap(1),
    ];
    for chart in &charts {
        for (w, h) in [(5u16, 5u16), (7, 3), (13, 9), (30, 12), (1, 1), (4, 2)] {
            let area = Rect { x: 3, y: 2, width: w, height: h };
            if let Some(draws) = chart.render(area) {
                for d in &draws {
                    let (x, y, span) = match d {
                        Draw::SetString { x, y, text, width, .. } => {
                            (*x, *y, (*width).min(ratatui::text::Span::raw(text.clone()).width()))
                        }
                        Draw::SetLine { x, y, line: l, width } => {
                            (*x, *y, (*width as usize).min(l.width()))
                        }
                        _ => continue,
                    };
                    if span > 0 {
                        assert!(x >= area.x && (x as usize) + span <= (area.x + area.width) as usize);
                        assert!(y >= area.y && y < area.y + area.height);
                    }
                }
            }
        }
    }
}

#[test]
fn a_bar_shows_exactly_when_it_fits_whole() {
    let groups: Vec<Vec<(&str, u64)>> =
        vec![vec![("a", 3), ("b", 7), ("c", 1)], vec![("d", 5), ("e", 2)], vec![("f", 9), ("g", 4)]];
    let (width, gap, group_gap) = (2u16, 1u16, 2u16);
    let mut chart = BarChart::default().bar_width(width).bar_gap(gap).group_gap(group_gap);
    for g in &groups {
        chart = chart.data(pairs_group(g));
    }
    let step = (width + gap) as i64;
    for space in 0..40u16 {
        let ticks = chart.group_ticks(space, 4).unwrap();
        let mut before: i64 = 0;
        let mut whole = true;
        for (g, group) in groups.iter().enumerate() {
            let n = group.len() as i64;
            for b in 0..group.len() {
                let fits = whole && before + b as i64 * step + width as i64 <= space as i64;
                let shown = g < ticks.len() && b < ticks[g].len();
                assert_eq!(shown, fits, "space {space}, group {g}, bar {b}");
            }
            let group_width = n * width as i64 + (n - 1) * gap as i64;
            whole = whole && before + group_width < space as i64;
            before += n * step + group_gap as i64;
        }
    }
}

#[test]
fn vertical_texts_stay_inside_with_a_low_maximum() {
    let chart = BarChart::default()
        .data(pairs_group(&[("a", 100), ("bb", 2000), ("ccc", 30)]).label(Line::raw("grp")))
        .bar_width(4)
        .max(2);
    for (w, h) in [(5u16, 5u16), (14, 3), (20, 9), (3, 2)] {
        let area = Rect { x: 1, y: 1, width: w, height: h };
        for d in chart.render(area).unwrap() {
            let (x, y, span) = match d {
                Draw::SetString { x, y, text, width, .. } => {
                    (x, y, width.min(ratatui::text::Span::raw(text).width()))
                }
                Draw::SetLine { x, y, line: l, width } => (x, y, (width as usize).min(l.width())),
                _ => continue,
            };
            if span > 0 {
                assert!(x >= area.x && (x as usize) + span <= (area.x + area.width) as usize);
                assert!(y >= area.y && y < area.y + area.height);
            }
        }
    }
}
