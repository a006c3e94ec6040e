use realconsole::lunar::{
    calculate_bazi, calculate_day_pillar, calculate_hour_stem, calculate_month_pillar, format_weekday,
    hour_branch_of, lunar_query, lunar_query_on, parse_date_bidirectional, parse_lunar_date, parse_time,
    resolve_date, split_at_char, year_names_of, CivilDate, ClockTime, Pillar,
};

fn chars(s: &str) -> Vec<char> {
    s.chars().collect()
}

fn text(v: &[char]) -> String {
    v.iter().collect()
}

fn today() -> CivilDate {
    CivilDate { year: 2024, month: 6, day: 1 }
}

#[test]
fn test_parse_solar_date() {
    let result = parse_date_bidirectional("2024-01-01");
    assert!(result.is_ok());
    let (solar, _, is_lunar) = result.unwrap();
    assert_eq!(solar.to_string(), "2024-01-01");
    assert!(!is_lunar);
}

#[test]
fn test_parse_lunar_date() {
    // 农历2024年正月初一 = 公历2024-02-10
    let result = parse_date_bidirectional("lunar:2024-01-01");
    assert!(result.is_ok());
    let (solar, _, is_lunar) = result.unwrap();
    assert_eq!(solar.to_string(), "2024-02-10");
    assert!(is_lunar);
}

#[test]
fn test_parse_time() {
    let result = parse_time("14:30");
    assert!(result.is_ok());
    assert_eq!(result.unwrap().to_string(), "14:30");
}

#[test]
fn test_bazi_calculation() {
    let (_, lunar, _) = parse_date_bidirectional("2024-02-10").unwrap();
    let time = ClockTime { hour: 14, minute: 30 };

    let bazi = calculate_bazi(&lunar, time);
    assert!(bazi.is_ok());

    let bazi = bazi.unwrap();
    assert_eq!(bazi.year.text().chars().count(), 2);
    assert_eq!(bazi.month.text().chars().count(), 2);
    assert_eq!(bazi.day.text().chars().count(), 2);
    assert_eq!(bazi.hour.text().chars().count(), 2);
}

#[test]
fn test_day_pillar_calculation() {
    let date = CivilDate { year: 2024, month: 1, day: 1 };
    let result = calculate_day_pillar(date);
    assert!(result.is_ok());
}

#[test]
fn lunar_new_year_2024_is_jiachen_dragon() {
    let (solar, lunar, is_lunar) = resolve_date(today(), "lunar:2024-01-01").unwrap();
    assert_eq!(solar, CivilDate { year: 2024, month: 2, day: 10 });
    assert!(is_lunar);
    assert_eq!((lunar.year, lunar.month, lunar.leap, lunar.day), (2024, 1, false, 1));
    assert_eq!(lunar.info.text, "二零二四　甲辰、龙年　正月　初一");
    assert_eq!(lunar.info.year_stem, 0);
    assert_eq!(lunar.info.year_branch, 4);
}

#[test]
fn solar_date_converts_to_its_lunisolar_day() {
    let (solar, lunar, is_lunar) = resolve_date(today(), "2019-01-15").unwrap();
    assert_eq!(solar, CivilDate { year: 2019, month: 1, day: 15 });
    assert!(!is_lunar);
    assert_eq!((lunar.year, lunar.month, lunar.leap, lunar.day), (2018, 12, false, 10));
    assert_eq!(lunar.info.text, "二零一八　戊戌、狗年　腊月　初十");
    assert_eq!(lunar.info.solar, solar);
}

#[test]
fn today_and_empty_argument_use_the_given_day() {
    let (a, _, la) = resolve_date(today(), "today").unwrap();
    let (b, _, lb) = resolve_date(today(), "").unwrap();
    assert_eq!(a, today());
    assert_eq!(b, today());
    assert!(!la && !lb);
}

#[test]
fn leap_month_is_read_after_its_mark() {
    let (solar, lunar, is_lunar) = parse_lunar_date("2023-闰02-15").unwrap();
    assert!(is_lunar);
    assert!(lunar.leap);
    assert_eq!(lunar.month, 2);
    assert_eq!(solar, CivilDate { year: 2023, month: 4, day: 5 });
}

#[test]
fn lunar_date_errors() {
    assert_eq!(
        parse_lunar_date("2024-01").unwrap_err(),
        "农历日期格式错误。格式: YYYY-MM-DD 或 YYYY-闰MM-DD"
    );
    assert_eq!(parse_lunar_date("abc-01-01").unwrap_err(), "农历年份解析失败");
    assert_eq!(parse_lunar_date("2024-xx-01").unwrap_err(), "农历月份解析失败");
    assert_eq!(parse_lunar_date("2024-01-yy").unwrap_err(), "农历日期解析失败");
    assert_eq!(parse_lunar_date("2024-闰02-15").unwrap_err(), "农历日期无效: IncorrectLunarMonth");
    assert_eq!(parse_lunar_date("1800-01-01").unwrap_err(), "农历日期无效: IncorrectLunisolarYear");
}

#[test]
fn solar_date_errors() {
    assert_eq!(
        resolve_date(today(), "1800-01-01").unwrap_err(),
        "农历转换失败: OutOfLunarRange。支持范围: 1901-02-19 到 2101-01-28"
    );
    let e = resolve_date(today(), "2024/01/01").unwrap_err();
    assert!(e.starts_with("日期格式错误: "));
    assert!(e.ends_with("。请使用 YYYY-MM-DD 格式"));
}

#[test]
fn time_errors() {
    let e = parse_time("25:00").unwrap_err();
    assert!(e.starts_with("时间格式错误: "));
    assert!(e.ends_with("。请使用 HH:MM 格式（如 14:30）"));
    assert_eq!(parse_time("09:05").unwrap(), ClockTime { hour: 9, minute: 5 });
}

#[test]
fn dates_and_times_are_zero_padded() {
    assert_eq!(CivilDate { year: 5, month: 3, day: 7 }.to_string(), "0005-03-07");
    assert_eq!(CivilDate { year: -1, month: 1, day: 1 }.to_string(), "-0001-01-01");
    assert_eq!(CivilDate { year: 10000, month: 12, day: 31 }.to_string(), "+10000-12-31");
    assert_eq!(CivilDate { year: 2019, month: 1, day: 15 }.chinese_text(), "2019年01月15日");
    assert_eq!(ClockTime { hour: 9, minute: 5 }.to_string(), "09:05");
}

#[test]
fn pillar_formulas() {
    // 2019-01-15 is 737073 days after 0001-01-01: (737073 + 9) % 10 = 2 (丙), % 12 = 6 (午).
    let day = calculate_day_pillar(CivilDate { year: 2019, month: 1, day: 15 }).unwrap();
    assert_eq!(day, Pillar { stem: 2, branch: 6 });
    assert_eq!(day.text(), "丙午");
    assert_eq!(calculate_day_pillar(CivilDate { year: 1, month: 1, day: 1 }).unwrap(), Pillar { stem: 9, branch: 9 });
    // A 戊 year's twelfth month: stems start at 甲 for the first month, so 乙; the branch is 丑.
    let (_, lunar, _) = resolve_date(today(), "2019-01-15").unwrap();
    assert_eq!(calculate_month_pillar(&lunar, 4).unwrap(), Pillar { stem: 1, branch: 1 });
    assert_eq!(hour_branch_of(23), 0);
    assert_eq!(hour_branch_of(0), 0);
    assert_eq!(hour_branch_of(1), 1);
    assert_eq!(hour_branch_of(15), 8);
    assert_eq!(calculate_hour_stem(2, 8), 2);
    assert_eq!(calculate_hour_stem(0, 0), 0);
    assert_eq!(calculate_hour_stem(9, 11), 9);
}

#[test]
fn bazi_of_a_documented_birth() {
    let (_, lunar, _) = resolve_date(today(), "2019-01-15").unwrap();
    let b = calculate_bazi(&lunar, ClockTime { hour: 15, minute: 30 }).unwrap();
    assert_eq!(b.year.text(), "戊戌");
    assert_eq!(b.month.text(), "乙丑");
    assert_eq!(b.day.text(), "丙午");
    assert_eq!(b.hour.text(), "丙申");
}

#[test]
fn splitting_keeps_empty_pieces() {
    let parts = split_at_char(&chars("a--b-"), '-');
    let parts: Vec<String> = parts.iter().map(|p| text(p)).collect();
    assert_eq!(parts, vec!["a", "", "b", ""]);
    assert_eq!(split_at_char(&chars(""), '-').len(), 1);
}

#[test]
fn year_names_are_read_from_the_calendar_text() {
    let (gz, animal) = year_names_of(&chars("二零一八　戊戌、狗年　腊月　初十")).unwrap();
    assert_eq!(text(&gz), "戊戌");
    assert_eq!(text(&animal), "狗");
    assert!(year_names_of(&chars("no separators")).is_none());
    assert!(year_names_of(&chars("a　b")).is_none());
}

#[test]
fn weekday_names() {
    assert_eq!(format_weekday(0), "星期一");
    assert_eq!(format_weekday(1), "星期二");
    assert_eq!(format_weekday(6), "星期日");
}

#[test]
fn simple_answers() {
    assert_eq!(
        lunar_query_on(today(), "2019-01-15", None, "simple").unwrap(),
        "公历 2019-01-15 → 农历 二零一八　戊戌、狗年　腊月　初十"
    );
    assert_eq!(
        lunar_query_on(today(), "lunar:2024-01-01", None, "simple").unwrap(),
        "农历 二零二四　甲辰、龙年　正月　初一 → 公历 2024-02-10"
    );
}

#[test]
fn standard_answers() {
    assert_eq!(
        lunar_query_on(today(), "2019-01-15", None, "standard").unwrap(),
        "📅 公历 2019年01月15日\n农历 二零一八 戊戌、狗年 腊月 初十\n干支: 戊戌\n生肖: 狗"
    );
    assert_eq!(
        lunar_query_on(today(), "2019-01-15", Some("15:30"), "standard").unwrap(),
        "📅 公历 2019年01月15日\n农历 二零一八 戊戌、狗年 腊月 初十\n干支: 戊戌\n生肖: 狗\n\n⏰ 出生时间: 15:30\n八字: 戊戌 乙丑 丙午 丙申"
    );
    assert_eq!(
        lunar_query_on(today(), "lunar:2024-01-01", None, "standard").unwrap(),
        "📅 农历 二零二四 甲辰、龙年 正月 初一\n公历 2024年02月10日\n干支: 甲辰\n生肖: 龙"
    );
}

#[test]
fn full_answer_with_birth_time_and_weight() {
    let expected = "═══ 农历信息 ═══\n\n📅 公历\n  日期: 2019年01月15日\n  星期: 星期二\n\n🌙 农历\n  二零一八 戊戌、狗年 腊月 初十\n  干支: 戊戌\n  生肖: 狗\n\n⏰ 出生时间: 15:30\n\n🔮 八字（四柱）\n  年柱: 戊戌 （戊戌）\n  月柱: 乙丑 （乙丑）\n  日柱: 丙午 （丙午）\n  时柱: 丙申 （丙申）\n\n💎 八字重量: 4.3 两\n══════════════════";
    assert_eq!(lunar_query_on(today(), "2019-01-15", Some("15:30"), "full").unwrap(), expected);
}

#[test]
fn full_answer_for_a_lunar_input_notes_the_solar_date() {
    let answer = lunar_query_on(today(), "lunar:2024-01-01", None, "full").unwrap();
    assert!(answer.starts_with("═══ 农历信息 ═══\n\n📅 公历\n  日期: 2024年02月10日\n  星期: 星期六\n"));
    assert!(answer.ends_with("\n💡 农历输入，转换结果: 公历 2024年02月10日\n══════════════════"));
}

#[test]
fn query_errors_come_in_order() {
    assert_eq!(
        lunar_query_on(today(), "2019-01-15", None, "verbose").unwrap_err(),
        "不支持的详细程度: verbose。支持: simple, standard, full"
    );
    assert!(lunar_query_on(today(), "2019-01-15", Some("7pm"), "verbose").unwrap_err().starts_with("时间格式错误: "));
    assert_eq!(
        lunar_query_on(today(), "lunar:2024-13-01", Some("7pm"), "verbose").unwrap_err(),
        "农历日期无效: IncorrectLunarMonth"
    );
}

#[test]
fn query_for_today_answers() {
    let answer = lunar_query("today", None, "simple").unwrap();
    assert!(answer.starts_with("公历 "));
}

#[test]
fn every_pillar_pairs_stem_and_branch_of_one_parity() {
    for date in ["2019-01-15", "lunar:2024-01-01", "lunar:2023-闰02-15", "2100-12-31", "1901-02-19"] {
        let (_, lunar, _) = resolve_date(today(), date).unwrap();
        for hour in 0..24 {
            let b = calculate_bazi(&lunar, ClockTime { hour, minute: 0 }).unwrap();
            for p in [b.year, b.month, b.day, b.hour] {
                assert_eq!(p.stem % 2, p.branch % 2, "{} {}", date, hour);
            }
        }
    }
}

#[test]
fn day_pillars_repeat_every_sixty_days() {
    // 2019-01-15 and 60 days later, 2019-03-16.
    let a = calculate_day_pillar(CivilDate { year: 2019, month: 1, day: 15 }).unwrap();
    let b = calculate_day_pillar(CivilDate { year: 2019, month: 3, day: 16 }).unwrap();
    let c = calculate_day_pillar(CivilDate { year: 2019, month: 3, day: 17 }).unwrap();
    assert_eq!(a, b);
    assert_ne!(a, c);
}

#[test]
fn lunar_year_cycle_follows_the_year_number() {
    let (_, lunar, _) = resolve_date(today(), "lunar:2024-01-01").unwrap();
    assert_eq!(lunar.info.year_stem as u32, (2024 + 6) % 10);
    assert_eq!(lunar.info.year_branch as u32, (2024 + 8) % 12);
}

#[test]
fn lunisolar_year_2101_is_refused() {
    assert_eq!(parse_lunar_date("2101-01-01").unwrap_err(), "农历日期无效: IncorrectLunisolarYear");
    assert_eq!(
        lunar_query_on(today(), "lunar:2101-01-01", None, "simple").unwrap_err(),
        "农历日期无效: IncorrectLunisolarYear"
    );
    assert!(parse_lunar_date("2100-12-01").is_ok());
    assert!(resolve_date(today(), "2101-01-28").is_ok());
}
