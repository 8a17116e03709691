use random::random::singl_number;

#[test]
fn single_number_counter() {
    let mut list = [0; 10];
    for _ in 0..100 {
        if let Some(i) = singl_number() {
            list[i as usize] += 1;
        }
    }
    println!("{:?}", list);
}

#[test]
fn single_number_is_a_digit() {
    for _ in 0..100 {
        if let Some(d) = singl_number() {
            assert!(d <= 9);
        }
    }
}
