use hermit_core::localization_manager::{
    parse_rating_as_score, CountryInfo, LocalizationData, LocalizationManager,
    ParentalRatingEntry, ParentalRatingScore, DEFAULT_METADATA_COUNTRY_CODE,
};

fn country(name: &str, display: &str, three: &str) -> CountryInfo {
    CountryInfo {
        name: name.to_owned(),
        display_name: display.to_owned(),
        two_letter_iso_region_name: name.to_owned(),
        three_letter_iso_region_name: three.to_owned(),
    }
}

fn entry(names: &[&str], score: i32, sub: Option<i32>) -> ParentalRatingEntry {
    ParentalRatingEntry {
        rating_strings: names.iter().map(|n| (*n).to_owned()).collect(),
        rating_score: Some(ParentalRatingScore::new(score, sub)),
    }
}

fn data() -> LocalizationData {
    LocalizationData {
        iso6392: "abk||ab|Abkhazian|abkhaze\n\
                  ace|||Achinese|aceh\n\
                  eng||en|English|anglais\n\
                  fra|fre|fr|French|français\n\
                  deu|ger|de|German|allemand\r\n\
                  spa||es|Spanish; Castilian|espagnol; castillan\n\
                  nld|dut|nl|Dutch; Flemish|néerlandais; flamand\n\
                  zho|chi|zh-TW|Chinese; Traditional|chinois\n\
                  und||xx||\n"
            .to_owned(),
        countries: vec![
            country("US", "United States", "USA"),
            country("GB", "United Kingdom", "GBR"),
            country("AT", "Austria", "AUT"),
        ],
        us_ratings: vec![
            entry(&["Approved", "G", "TV-G"], 0, Some(0)),
            entry(&["PG", "TV-PG"], 10, Some(0)),
            entry(&["PG-13"], 13, Some(0)),
            entry(&["TV-14"], 14, Some(0)),
            entry(&["R"], 17, Some(0)),
            entry(&["NC-17", "TV-MA"], 17, Some(1)),
            ParentalRatingEntry {
                rating_strings: vec!["Nothing".to_owned()],
                rating_score: None,
            },
        ],
    }
}

fn manager() -> LocalizationManager {
    LocalizationManager::new(DEFAULT_METADATA_COUNTRY_CODE, data())
}

#[test]
fn find_language_by_various_codes() {
    let m = manager();
    let by_two = m.find_language_info("en").expect("two-letter");
    assert_eq!(by_two.display_name, "English");
    let by_three_t = m.find_language_info("fra").expect("three-letter T");
    assert_eq!(by_three_t.two_letter_iso_language_name, "fr");
    let by_three_b = m.find_language_info("fre").expect("three-letter B");
    assert_eq!(by_three_b.two_letter_iso_language_name, "fr");
    let by_display = m.find_language_info("German").expect("display");
    // Name is the English display name; the two-letter code only for region tags.
    assert_eq!(by_display.name, "German");
    assert!(m.find_language_info("zzz").is_none());
    assert!(m.find_language_info("").is_none());
}

#[test]
fn rows_without_a_code_or_a_name_are_skipped() {
    let m = manager();
    let cultures = m.get_cultures();
    assert_eq!(cultures.len(), 7);
    let abk = cultures
        .iter()
        .find(|c| c.two_letter_iso_language_name == "ab")
        .expect("Abkhazian present");
    assert_eq!(abk.name, "Abkhazian");
    assert_eq!(abk.display_name, "Abkhazian");
    assert_eq!(abk.three_letter_iso_language_name.as_deref(), Some("abk"));
    assert_eq!(abk.three_letter_iso_language_names, vec!["abk"]);
    let french = m.find_language_info("FR").unwrap();
    assert_eq!(french.three_letter_iso_language_names, vec!["fra", "fre"]);
    // A two-letter code with a region is the name.
    assert_eq!(m.find_language_info("chi").unwrap().name, "zh-TW");
}

#[test]
fn language_display_name_truncates_at_delimiter() {
    let m = manager();
    assert_eq!(
        m.get_language_display_name("es").as_deref(),
        Some("Spanish")
    );
    assert_eq!(m.get_language_display_name("nl").as_deref(), Some("Dutch"));
    assert_eq!(m.get_language_display_name(""), None);
}

#[test]
fn iso6392_b_to_t_maps_known_pairs() {
    let m = manager();
    assert_eq!(m.try_get_iso6392_t_from_b("fre").as_deref(), Some("fra"));
    assert_eq!(m.try_get_iso6392_t_from_b("ger").as_deref(), Some("deu"));
    // "eng" has no distinct B code → no mapping.
    assert_eq!(m.try_get_iso6392_t_from_b("eng"), None);
    assert_eq!(m.try_get_iso6392_t_from_b("FRE").as_deref(), Some("fra"));
}

#[test]
fn countries_are_available() {
    let m = manager();
    let countries = m.get_countries();
    assert!(
        countries
            .iter()
            .any(|c| c.two_letter_iso_region_name == "US")
    );
    assert!(countries.iter().any(|c| c.display_name == "United Kingdom"));
}

#[test]
fn rating_score_resolves_numbers_and_names() {
    let m = manager();
    assert_eq!(m.get_rating_score("PG-13", None).map(|s| s.score), Some(13));
    assert_eq!(m.get_rating_score("16+", None).map(|s| s.score), Some(16));
    assert_eq!(
        m.get_rating_score("TV-MA", Some("US")).map(|s| s.score),
        Some(17)
    );
    // Unrated tokens resolve to None.
    assert_eq!(m.get_rating_score("Unrated", None), None);
    // Multi-value: first resolvable wins.
    assert_eq!(
        m.get_rating_score("n/a / PG", None).map(|s| s.score),
        Some(10)
    );
    // Country-prefixed.
    assert_eq!(m.get_rating_score("US:R", None).map(|s| s.score), Some(17));
}

#[test]
fn ratings_are_cleaned_and_prefixed() {
    let m = manager();
    assert_eq!(m.get_rating_score("", None), None);
    assert_eq!(m.get_rating_score("Rated R", None).map(|s| s.score), Some(17));
    assert_eq!(m.get_rating_score("Rated: R", None).map(|s| s.score), Some(17));
    assert_eq!(m.get_rating_score("Rated : R", None).map(|s| s.score), Some(17));
    assert_eq!(m.get_rating_score("us-18", None).map(|s| s.score), Some(18));
    assert_eq!(m.get_rating_score("US:12+", None).map(|s| s.score), Some(12));
    assert_eq!(m.get_rating_score("DE:12", None), None);
    assert_eq!(m.get_rating_score("US:", None), None);
    // A country without ratings of its own falls back to every country.
    assert_eq!(m.get_rating_score("PG", Some("de")).map(|s| s.score), Some(10));
    assert_eq!(m.get_rating_score("nr", None), None);
    assert_eq!(m.get_rating_score("Not Rated", None), None);
    assert_eq!(m.get_rating_score("Nothing", None), None);
}

#[test]
fn a_number_is_its_own_score() {
    assert_eq!(parse_rating_as_score("16+"), Some(16));
    assert_eq!(parse_rating_as_score("16++"), Some(16));
    assert_eq!(parse_rating_as_score("-3"), Some(-3));
    assert_eq!(parse_rating_as_score("PG"), None);
    assert_eq!(parse_rating_as_score("2147483648"), None);
}

#[test]
fn parental_ratings_backfilled_and_sorted() {
    let m = manager();
    let ratings = m.get_parental_ratings();
    // Back-filled entries present.
    assert!(ratings.iter().any(|r| r.name == "Unrated"));
    assert!(ratings.iter().any(|r| r.name == "XXX"));
    assert!(ratings.iter().any(|r| r.name == "Banned"));
    // Sorted ascending by score (ignoring the None-scored "Unrated").
    let scores: Vec<i32> = ratings
        .iter()
        .filter_map(|r| r.rating_score.map(|s| s.score))
        .collect();
    let mut sorted = scores.clone();
    sorted.sort_unstable();
    assert_eq!(scores, sorted);
}

#[test]
fn a_country_without_ratings_has_the_common_ones() {
    let m = LocalizationManager::new("de", data());
    assert_eq!(m.metadata_country_code, "DE");
    let names: Vec<(String, Option<i32>)> = m
        .get_parental_ratings()
        .into_iter()
        .map(|r| (r.name, r.rating_score.map(|s| s.score)))
        .collect();
    assert_eq!(
        names,
        vec![
            ("Unrated".to_owned(), None),
            ("Approved".to_owned(), Some(0)),
            ("10".to_owned(), Some(10)),
            ("13".to_owned(), Some(13)),
            ("14".to_owned(), Some(14)),
            ("21".to_owned(), Some(21)),
            ("XXX".to_owned(), Some(1000)),
            ("Banned".to_owned(), Some(1001)),
        ]
    );
}

#[test]
fn ratings_carry_their_sub_scores() {
    let m = manager();
    let ratings = m.get_parental_ratings();
    let nc17 = ratings.iter().find(|r| r.name == "NC-17").expect("NC-17");
    assert_eq!(nc17.rating_score.map(|s| s.score), Some(17));
    assert_eq!(nc17.rating_score.and_then(|s| s.sub_score), Some(1));
    let r = ratings.iter().position(|r| r.name == "R").unwrap();
    let nc = ratings.iter().position(|r| r.name == "NC-17").unwrap();
    assert!(r < nc);
}

#[test]
fn localization_options_are_fixed() {
    // The fixed 71-entry UI-language list, with es_419.
    let options = manager().get_localization_options();
    assert_eq!(options.len(), 71);
    assert!(options.iter().any(|o| o.value == "es_419"));
    assert!(
        options
            .iter()
            .any(|o| o.value == "en-US" && o.name == "English")
    );
    assert_eq!(options[0].name, "Afrikaans");
    assert_eq!(options[70].value, "zh-HK");
}
