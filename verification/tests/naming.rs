use file_transfer::naming::{candidate, generate, SUFFIX_RANGE};

fn has_generated_shape(prefix: &str, name: &str) -> bool {
    match name.strip_prefix(prefix) {
        Some(rest) => {
            let bytes = rest.as_bytes();
            bytes.len() == 7 && bytes[..3].iter().all(|b| b.is_ascii_digit()) && &bytes[3..] == b".txt"
        }
        None => false,
    }
}

#[test]
fn candidate_pads_to_three_digits() {
    assert_eq!(candidate("data", 0), "data000.txt");
    assert_eq!(candidate("data", 7), "data007.txt");
    assert_eq!(candidate("data", 42), "data042.txt");
    assert_eq!(candidate("data", 100), "data100.txt");
    assert_eq!(candidate("data", 999), "data999.txt");
}

#[test]
fn candidate_writes_every_suffix_as_its_decimal_digits() {
    for n in 0..SUFFIX_RANGE {
        assert_eq!(candidate("p", n), format!("p{:03}.txt", n));
    }
}

#[test]
fn candidate_keeps_the_prefix_as_it_is() {
    assert_eq!(candidate("", 5), "005.txt");
    assert_eq!(candidate("a b/ü", 321), "a b/ü321.txt");
    assert_eq!(candidate("123", 456), "123456.txt");
}

#[test]
fn the_suffix_range_is_a_thousand() {
    assert_eq!(SUFFIX_RANGE, 1000);
}

#[test]
fn generate_gives_a_name_of_the_generated_shape() {
    for _ in 0..500 {
        let name = generate("data");
        assert!(has_generated_shape("data", &name), "{}", name);
    }
}

#[test]
fn generate_draws_anew_on_every_call() {
    let first = generate("data");
    let mut differs = false;
    for _ in 0..200 {
        if generate("data") != first {
            differs = true;
        }
    }
    assert!(differs);
}

#[test]
fn generate_reaches_low_and_high_suffixes() {
    let mut low = false;
    let mut high = false;
    for _ in 0..20000 {
        let name = generate("");
        let n: u32 = name[..3].parse().unwrap();
        assert!(n < SUFFIX_RANGE);
        if n < 100 {
            low = true;
        }
        if n >= 900 {
            high = true;
        }
    }
    assert!(low && high);
}
