use update_generator::layout::{bundle_dir_name, bundle_probe, update_dir_names, BundleProbe, LocalDate};

fn dirs(year: i32, month: u32, day: u32) -> Option<(String, String)> {
    update_dir_names(&LocalDate { year, month, day }).map(|d| (d.year_dir, d.day_dir))
}

#[test]
fn dated_directories_of_a_day() {
    assert_eq!(dirs(2024, 3, 7), Some(("update_2024".to_string(), "update_2024.03.07".to_string())));
    assert_eq!(dirs(1999, 12, 31), Some(("update_1999".to_string(), "update_1999.12.31".to_string())));
}

#[test]
fn dated_directories_pad_small_years() {
    assert_eq!(dirs(5, 1, 1), Some(("update_0005".to_string(), "update_0005.01.01".to_string())));
}

#[test]
fn dated_directories_sign_years_outside_four_digits() {
    assert_eq!(dirs(-1, 6, 15), Some(("update_-0001".to_string(), "update_-0001.06.15".to_string())));
    assert_eq!(dirs(10000, 6, 15), Some(("update_+10000".to_string(), "update_+10000.06.15".to_string())));
}

#[test]
fn dated_directories_need_a_calendar_day() {
    assert_eq!(dirs(2023, 2, 29), None);
    assert!(dirs(2024, 2, 29).is_some());
    assert_eq!(dirs(1900, 2, 29), None);
    assert!(dirs(2000, 2, 29).is_some());
    assert_eq!(dirs(2024, 4, 31), None);
    assert_eq!(dirs(2024, 13, 1), None);
    assert_eq!(dirs(2024, 1, 0), None);
    assert_eq!(dirs(262143, 1, 1), None);
    assert!(dirs(262142, 1, 1).is_some());
}

#[test]
fn law_day_directory_starts_with_year_directory() {
    let (y, d) = dirs(2031, 11, 2).unwrap();
    assert!(d.starts_with(&y));
}

#[test]
fn bundle_directory_names() {
    assert_eq!(bundle_dir_name(1), "1. Разное");
    assert_eq!(bundle_dir_name(12), "12. Разное");
    assert_eq!(bundle_dir_name(0), "0. Разное");
}

#[test]
fn law_bundle_names_distinct_concrete() {
    let names: Vec<String> = (0..200).map(bundle_dir_name).collect();
    for i in 0..names.len() {
        for j in 0..i {
            assert_ne!(names[i], names[j]);
        }
    }
}

#[test]
fn bundle_search_moves_on_from_taken_numbers() {
    assert!(matches!(bundle_probe(1, true), BundleProbe::TryNext(2)));
    assert!(matches!(bundle_probe(3, false), BundleProbe::Take(3)));
}

#[test]
fn bundle_search_takes_first_free_number() {
    let taken = [true, true, false, true];
    let mut index: u32 = 1;
    let chosen = loop {
        match bundle_probe(index, taken[(index - 1) as usize]) {
            BundleProbe::TryNext(next) => index = next,
            BundleProbe::Take(n) => break n,
        }
    };
    assert_eq!(chosen, 3);
}

#[test]
fn law_bundle_search_takes_least_free_number_concrete() {
    for taken in [vec![false], vec![true, false], vec![true, true, true, false, false], vec![true, false, true, false]] {
        let mut index: u32 = 1;
        let chosen = loop {
            match bundle_probe(index, taken[(index - 1) as usize]) {
                BundleProbe::TryNext(next) => index = next,
                BundleProbe::Take(n) => break n,
            }
        };
        let least_free = taken.iter().position(|t| !t).unwrap() as u32 + 1;
        assert_eq!(chosen, least_free);
    }
}
