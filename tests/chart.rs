use pressure_chart::extract::{
    readings_from_rows, scrape_date_time, scrape_pressure_data, title_from_rows, ExtractError,
};
use pressure_chart::layout::{
    average, get_range_offset, get_time_offset, layout_chart, mark_row, set_field, total,
    ChartConfig, ChartError, VerticalAnchor,
};
use pressure_chart::reading::{parse_reading, round, round_scaled};
use pressure_chart::render::{decimal_text, draw_chart, render_chart};

fn table_row(cells: &[&str]) -> Vec<String> {
    cells.iter().map(|c| c.to_string()).collect()
}

fn pressure_row(value: &str) -> Vec<String> {
    let mut row: Vec<String> = (0..9).map(|i| format!("c{}", i)).collect();
    row.push(value.to_string());
    row.push("tail".to_string());
    row
}

fn constant_series(tenths: i32, n: usize) -> Vec<i32> {
    vec![tenths; n]
}

#[test]
fn round_is_floor_of_half_up() {
    assert_eq!(round(24), 2);
    assert_eq!(round(25), 3);
    assert_eq!(round(26), 3);
    assert_eq!(round(-5), 0);
    assert_eq!(round(-6), -1);
    assert_eq!(round(-15), -1);
    assert_eq!(round(10135), 1014);
    assert_eq!(round(10134), 1013);
}

#[test]
fn round_scaled_by_magnification() {
    assert_eq!(round_scaled(10079, 4), 4032);
    assert_eq!(round_scaled(10077, 4), 4031);
    assert_eq!(round_scaled(10130, 4), 4052);
    assert_eq!(round_scaled(-3, 4), -1);
}

#[test]
fn parse_reading_forms() {
    assert_eq!(parse_reading("1013.2"), Some(10132));
    assert_eq!(parse_reading("10"), Some(100));
    assert_eq!(parse_reading("12."), Some(120));
    assert_eq!(parse_reading(".5"), Some(5));
    assert_eq!(parse_reading("-0.5"), Some(-5));
    assert_eq!(parse_reading("+3"), Some(30));
    assert_eq!(parse_reading("0"), Some(0));
}

#[test]
fn parse_reading_rejects() {
    assert_eq!(parse_reading("x"), None);
    assert_eq!(parse_reading(""), None);
    assert_eq!(parse_reading("."), None);
    assert_eq!(parse_reading("-"), None);
    assert_eq!(parse_reading("1.25"), None);
    assert_eq!(parse_reading("1x"), None);
    assert_eq!(parse_reading(" 10"), None);
    assert_eq!(parse_reading("×"), None);
    assert_eq!(parse_reading("99999999999"), None);
    assert_eq!(parse_reading("214748364.8"), None);
    assert_eq!(parse_reading("214748364.7"), Some(2147483647));
    assert_eq!(parse_reading("-214748364.8"), Some(-2147483648));
}

#[test]
fn extraction_stops_at_first_unparseable_cell() {
    let rows = vec![
        table_row(&["head"]),
        table_row(&["units"]),
        pressure_row("10"),
        pressure_row("11"),
        pressure_row("x"),
        pressure_row("12"),
    ];
    assert_eq!(readings_from_rows(&rows), Ok(vec![100, 110]));
}

#[test]
fn extraction_of_short_row_fails() {
    let rows = vec![
        table_row(&["head"]),
        table_row(&["units"]),
        pressure_row("10"),
        table_row(&["1", "2"]),
    ];
    assert_eq!(readings_from_rows(&rows), Err(ExtractError::MissingCell));
}

#[test]
fn extraction_of_header_only_table_is_empty() {
    let rows = vec![table_row(&["head"]), table_row(&["a", "b"])];
    assert_eq!(readings_from_rows(&rows), Ok(vec![]));
}

#[test]
fn title_is_second_cell_of_second_row() {
    let rows = vec![
        table_row(&["a", "b"]),
        table_row(&["station", "2018-05-01 10:00"]),
    ];
    assert_eq!(title_from_rows(&rows), Ok("2018-05-01 10:00".to_string()));
    assert_eq!(title_from_rows(&rows[..1].to_vec()), Err(ExtractError::MissingRow));
    let short = vec![table_row(&["a"]), table_row(&["only"])];
    assert_eq!(title_from_rows(&short), Err(ExtractError::MissingCell));
}

fn page(values: &[&str]) -> String {
    let mut body = String::from("<html><body><table id=\"tbl_list\"><tbody>");
    body.push_str("<tr><td>h0</td></tr><tr><td>h1</td></tr>");
    for v in values {
        body.push_str("<tr>");
        for i in 0..9 {
            body.push_str(&format!("<td>c{}</td>", i));
        }
        body.push_str(&format!("<td>{}</td></tr>", v));
    }
    body.push_str("</tbody></table>");
    body.push_str("<table id=\"tbl_title\"><tbody><tr><td>x</td><td>y</td></tr>");
    body.push_str("<tr><td>Station</td><td>May 1</td></tr></tbody></table></body></html>");
    body
}

#[test]
fn scrape_page_appends_readings() {
    let mut data = vec![5];
    let body = page(&["1013.2", "1012.9", "///", "1011.0"]);
    assert_eq!(scrape_pressure_data(&body, &mut data), Ok(()));
    assert_eq!(data, vec![5, 10132, 10129]);
}

#[test]
fn scrape_page_title() {
    let body = page(&["1013.2"]);
    assert_eq!(scrape_date_time(&body), Ok("May 1".to_string()));
    assert_eq!(scrape_date_time("<html></html>"), Err(ExtractError::MissingRow));
}

#[test]
fn scrape_page_with_short_row_fails_and_keeps_data() {
    let mut data = vec![1, 2];
    let body = "<table id=\"tbl_list\"><tbody><tr><td>a</td></tr><tr><td>b</td></tr><tr><td>c</td></tr></tbody></table>";
    assert_eq!(scrape_pressure_data(body, &mut data), Err(ExtractError::MissingCell));
    assert_eq!(data, vec![1, 2]);
}

#[test]
fn time_offset_is_length_minus_window() {
    let cfg = ChartConfig::standard();
    assert_eq!(get_time_offset(&cfg, &constant_series(10130, 24)), Ok(0));
    assert_eq!(get_time_offset(&cfg, &constant_series(10130, 30)), Ok(6));
    assert_eq!(
        get_time_offset(&cfg, &constant_series(10130, 23)),
        Err(ChartError::InsufficientData)
    );
}

#[test]
fn range_offset_policies() {
    let cfg = ChartConfig::standard();
    let mut data = constant_series(10000, 36);
    data[24] = 10124;
    assert_eq!(get_range_offset(&cfg, VerticalAnchor::Latest, &data), Ok(1014));
    assert_eq!(get_range_offset(&cfg, VerticalAnchor::Average, &data), Ok(1002));
    assert_eq!(
        get_range_offset(&cfg, VerticalAnchor::Average, &constant_series(10000, 5)),
        Err(ChartError::InsufficientData)
    );
}

#[test]
fn average_rounds_half_up() {
    assert_eq!(total(&vec![10125, 10130]), 20255);
    assert_eq!(average(&vec![10125, 10130]), 1013);
    assert_eq!(average(&vec![10125, 10145]), 1014);
    assert_eq!(average(&vec![-5]), 0);
    assert_eq!(average(&vec![-6, -6]), -1);
}

#[test]
fn reading_rows_about_offset() {
    let cfg = ChartConfig::standard();
    assert_eq!(mark_row(&cfg, 1013, 10130), Some(0));
    assert_eq!(mark_row(&cfg, 1013, 10080), Some(20));
    assert_eq!(mark_row(&cfg, 1013, 10079), Some(20));
    assert_eq!(mark_row(&cfg, 1013, 10077), None);
    assert_eq!(mark_row(&cfg, 1013, 10133), None);
    assert_eq!(mark_row(&cfg, 1013, 10125), Some(2));
}

#[test]
fn field_has_one_mark_per_column() {
    let cfg = ChartConfig::standard();
    let data: Vec<i32> = (0..30).map(|i| 10000 + 3 * i).collect();
    let field = set_field(&cfg, 1010, &data);
    assert_eq!(field.len(), 21);
    for c in 0..24 {
        let marks = (0..21).filter(|&r| field[r][c]).count();
        assert!(marks <= 1);
    }
    // column 0 holds data[6] = 1001.8: 4040 - round(4007.2) = 33, off the grid
    assert!((0..21).all(|r| !field[r][0]));
    // column 23 holds data[29] = 1008.7: 4040 - round(4034.8) = 5
    assert!(field[5][23]);
}

#[test]
fn short_series_is_rejected() {
    let cfg = ChartConfig::standard();
    let data = constant_series(10130, 23);
    assert!(matches!(
        layout_chart(&cfg, VerticalAnchor::Latest, &data),
        Err(ChartError::InsufficientData)
    ));
    assert_eq!(
        draw_chart(&cfg, VerticalAnchor::Average, &data, "t"),
        Err(ChartError::InsufficientData)
    );
}

#[test]
fn constant_series_chart() {
    let cfg = ChartConfig::standard();
    let data = constant_series(10130, 24);
    let chart = layout_chart(&cfg, VerticalAnchor::Latest, &data).unwrap();
    assert_eq!(chart.vertical_offset, 1015);
    assert_eq!(chart.horizontal_offset, 0);
    let text = draw_chart(&cfg, VerticalAnchor::Latest, &data, "May 1").unwrap();
    let lines: Vec<&str> = text.split('\n').collect();
    assert_eq!(lines[0], "");
    assert_eq!(lines[1], "      時刻→");
    let hours: String = (0..24).map(|h| format!("{:^3}", h)).collect();
    assert_eq!(lines[2], format!("↓気圧{}", hours));
    for i in 0..21 {
        let line = lines[3 + i];
        if i == 8 {
            assert_eq!(line, format!("{:>6}{}", 1013, ".@.".repeat(24)));
        } else if i % 4 == 0 {
            assert_eq!(line, format!("{:>6}{}", 1015 - i / 4, "...".repeat(24)));
        } else {
            assert_eq!(line, " ".repeat(6 + 72));
        }
    }
    assert_eq!(lines[24], "\t\t\t May 1");
    assert_eq!(lines.len(), 26);
}

#[test]
fn major_and_minor_rows() {
    let cfg = ChartConfig::standard();
    let mut field = vec![vec![false; 24]; 21];
    for r in 0..21 {
        field[r][r] = true;
    }
    let text = render_chart(&cfg, &field, 1013, 5, "");
    let lines: Vec<&str> = text.split('\n').collect();
    let hours: String = (5..29).map(|h| format!("{:^3}", h % 24)).collect();
    assert_eq!(lines[2], format!("↓気圧{}", hours));
    for r in 0..21 {
        let line = lines[3 + r];
        let cells = &line[6..];
        if r % 4 == 0 {
            assert_eq!(&line[..6], format!("{:>6}", 1013 - r / 4));
            assert_eq!(&cells[3 * r..3 * r + 3], ".@.");
            assert!(cells.replace(".@.", "...").chars().all(|c| c == '.'));
        } else {
            assert_eq!(&line[..6], "      ");
            assert_eq!(&cells[3 * r..3 * r + 3], " @ ");
            assert!(cells.replace(" @ ", "   ").chars().all(|c| c == ' '));
        }
    }
}

#[test]
fn decimal_text_of_integers() {
    assert_eq!(decimal_text(0), "0");
    assert_eq!(decimal_text(1013), "1013");
    assert_eq!(decimal_text(-42), "-42");
}

#[test]
fn labels_of_negative_and_wide_steps() {
    let cfg = ChartConfig { bp_range: 3, time_range: 2, magnification: 1 };
    let field = vec![vec![false, true], vec![false, false], vec![true, false]];
    let text = render_chart(&cfg, &field, 0, 23, "T");
    assert_eq!(
        text,
        "\n      時刻→\n↓気圧23  0 \n     0....@.\n    -1......\n    -2.@....\n\t\t\t T\n"
    );
}
