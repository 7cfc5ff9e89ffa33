use intercom_cam::nal::split_nals;

fn split(data: &[u8]) -> Vec<Vec<u8>> {
    split_nals(data).iter().map(|nal| nal.to_vec()).collect()
}

/// A plain scan for start codes, to hold the splitter against.
fn scan(data: &[u8]) -> Vec<Vec<u8>> {
    let mut nals: Vec<Vec<u8>> = Vec::new();
    let mut i: usize = 0;
    let mut start: usize = 0;
    if data.starts_with(&[0, 0, 0, 1]) {
        start = 4;
        i = 4;
    } else if data.starts_with(&[0, 0, 1]) {
        start = 3;
        i = 3;
    }
    while i + 2 < data.len() {
        let code: usize = if data[i..].starts_with(&[0, 0, 0, 1]) {
            4
        } else if data[i..].starts_with(&[0, 0, 1]) {
            3
        } else {
            0
        };
        if code > 0 {
            if i > start {
                nals.push(data[start..i].to_vec());
            }
            start = i + code;
            i = start;
        } else {
            i += 1;
        }
    }
    if start < data.len() {
        nals.push(data[start..].to_vec());
    }
    if nals.is_empty() && !data.is_empty() {
        nals.push(data.to_vec());
    }
    nals
}

#[test]
fn an_empty_picture_has_no_units() {
    assert!(split(&[]).is_empty());
}

#[test]
fn units_are_split_at_both_start_codes() {
    assert_eq!(
        split(&[0, 0, 0, 1, 0x67, 1, 0, 0, 1, 0x68, 2, 0, 0, 0, 1, 0x65, 3, 4]),
        vec![vec![0x67, 1], vec![0x68, 2], vec![0x65, 3, 4]]
    );
}

#[test]
fn data_without_a_start_code_is_one_unit() {
    assert_eq!(split(&[0x65, 1, 2]), vec![vec![0x65, 1, 2]]);
    assert_eq!(split(&[0]), vec![vec![0]]);
    assert_eq!(split(&[0, 0]), vec![vec![0, 0]]);
}

#[test]
fn data_before_the_first_start_code_is_a_unit() {
    assert_eq!(split(&[9, 0, 0, 1, 5]), vec![vec![9], vec![5]]);
}

#[test]
fn start_codes_alone_are_handed_on_whole() {
    assert_eq!(split(&[0, 0, 1]), vec![vec![0, 0, 1]]);
    assert_eq!(split(&[0, 0, 0, 1]), vec![vec![0, 0, 0, 1]]);
    assert_eq!(split(&[0, 0, 1, 0, 0, 1]), vec![vec![0, 0, 1, 0, 0, 1]]);
}

#[test]
fn empty_units_are_left_out() {
    assert_eq!(split(&[0, 0, 1, 0, 0, 1, 7]), vec![vec![7]]);
    assert_eq!(split(&[0, 0, 1, 7, 0, 0, 1]), vec![vec![7]]);
}

#[test]
fn a_zero_before_a_three_byte_code_belongs_to_the_code() {
    assert_eq!(split(&[0, 0, 1, 5, 0, 0, 0, 1, 6]), vec![vec![5], vec![6]]);
    assert_eq!(split(&[5, 0, 0, 0, 0, 1, 6]), vec![vec![5, 0], vec![6]]);
}

#[test]
fn splitting_undoes_joining() {
    let units: Vec<Vec<u8>> = vec![vec![0x67, 0, 1], vec![0x68], vec![0x65, 0, 0, 2, 9]];
    let mut stream: Vec<u8> = Vec::new();
    for (i, unit) in units.iter().enumerate() {
        if i % 2 == 0 {
            stream.extend_from_slice(&[0, 0, 0, 1]);
        } else {
            stream.extend_from_slice(&[0, 0, 1]);
        }
        stream.extend_from_slice(unit);
    }
    assert_eq!(split(&stream), units);
}

#[test]
fn zeros_at_the_end_of_a_unit_are_kept_before_a_long_code_and_at_the_end() {
    assert_eq!(split(&[0, 0, 1, 5, 0, 0, 0, 0, 1, 6, 0]), vec![vec![5, 0], vec![6, 0]]);
    assert_eq!(split(&[0, 0, 1, 5, 0, 0, 0, 0, 0, 1, 6, 0, 0]), vec![vec![5, 0, 0], vec![6, 0, 0]]);
    assert_eq!(split(&[0, 0, 1, 5, 0, 0, 0, 1, 6]), vec![vec![5], vec![6]]);
}

#[test]
fn a_leading_start_code_changes_nothing() {
    let plain: [u8; 7] = [5, 6, 0, 0, 1, 7, 8];
    for code in [vec![0u8, 0, 1], vec![0, 0, 0, 1]] {
        let mut data: Vec<u8> = code.clone();
        data.extend_from_slice(&plain);
        assert_eq!(split(&data), split(&plain));
    }
}

#[test]
fn a_unit_is_not_split_again() {
    for data in [vec![0u8, 0, 1, 5, 0, 0, 0, 0, 1, 6], vec![0, 0, 1, 0, 0, 1]] {
        for unit in split(&data) {
            assert_eq!(split(&unit), vec![unit]);
        }
    }
}

#[test]
fn streams_are_joined_by_a_start_code() {
    let a: [u8; 6] = [0, 0, 1, 5, 6, 7];
    let b: [u8; 6] = [8, 0, 0, 1, 9, 0];
    let mut whole: Vec<u8> = a.to_vec();
    whole.extend_from_slice(&[0, 0, 1]);
    whole.extend_from_slice(&b);
    let mut expected: Vec<Vec<u8>> = split(&a);
    expected.extend(split(&b));
    assert_eq!(split(&whole), expected);
}

#[test]
fn only_start_codes_are_lost() {
    let data: [u8; 14] = [0, 0, 1, 5, 6, 0, 0, 0, 1, 7, 0, 0, 1, 8];
    let kept: usize = split(&data).iter().map(|unit| unit.len()).sum();
    assert_eq!(kept, data.len() - 3 - 4 - 3);
}

#[test]
fn every_short_stream_is_split_as_a_scan_splits_it() {
    let alphabet: [u8; 3] = [0, 1, 5];
    for len in 0..=9u32 {
        for code in 0..3usize.pow(len) {
            let mut rest: usize = code;
            let mut data: Vec<u8> = Vec::new();
            for _ in 0..len {
                data.push(alphabet[rest % 3]);
                rest /= 3;
            }
            assert_eq!(split(&data), scan(&data), "{:?}", data);
        }
    }
}
