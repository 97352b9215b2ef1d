use btc::exercises::text::{parse_u32, split, split_lines, trimmed};
use btc::exercises::{cf_112_a, cf_158_a, cf_158_b, cf_1_a, cf_339_a, cf_50_a, cf_71_a};
use btc::exercises::{spj_1025_2, spj_24_1, spj_2_1, spj_4_1};

#[test]
fn theatre_square() {
    assert_eq!(cf_1_a::solve(6, 6, 4), 4);
    assert_eq!(cf_1_a::solve(1, 1, 1), 1);
    assert_eq!(cf_1_a::solve(2, 1, 2), 1);
    assert_eq!(cf_1_a::solve(1_000_000_000, 1_000_000_000, 1), 1_000_000_000_000_000_000);
    assert_eq!(cf_1_a::solve(7, 3, 5), 2);
}

#[test]
fn domino_piling() {
    assert_eq!(cf_50_a::solve(2, 4), 4);
    assert_eq!(cf_50_a::solve(3, 3), 4);
    assert_eq!(cf_50_a::solve(1, 1), 0);
    assert_eq!(cf_50_a::solve(1, 5), 2);
    assert_eq!(cf_50_a::solve(16, 16), 128);
    assert_eq!(cf_50_a::solve(5, 7), 17);
}

#[test]
fn next_round() {
    assert_eq!(cf_158_a::solve(&vec![10, 9, 8, 7, 7, 7, 5, 5], 5), 6);
    assert_eq!(cf_158_a::solve(&vec![0, 0, 0, 0], 2), 0);
    assert_eq!(cf_158_a::solve(&vec![3, 3, 3, 3, 3, 3, 3, 0], 3), 7);
    assert_eq!(cf_158_a::solve(&vec![5, 4], 1), 1);
    assert_eq!(cf_158_a::solve(&vec![5, 4, 3, 2], 2), 2);
}

#[test]
fn taxi() {
    assert_eq!(cf_158_b::solve(&vec![1, 2, 4, 3, 3]), 4);
    assert_eq!(cf_158_b::solve(&vec![2, 3, 4, 4, 2, 1, 3, 1]), 5);
    assert_eq!(cf_158_b::solve(&vec![1, 1, 1, 1, 1]), 2);
    assert_eq!(cf_158_b::solve(&vec![2, 1, 1]), 1);
}

#[test]
fn petya_strings() {
    assert_eq!(cf_112_a::solve(b"aaaa", b"aaaA"), 0);
    assert_eq!(cf_112_a::solve(b"abs", b"Abz"), -1);
    assert_eq!(cf_112_a::solve(b"abcdefg", b"AbCdEfF"), 1);
}

#[test]
fn long_words() {
    assert_eq!(cf_71_a::decimal(0), b"0".to_vec());
    assert_eq!(cf_71_a::decimal(1234), b"1234".to_vec());
    let words = vec![
        b"word".to_vec(),
        b"localization".to_vec(),
        b"internationalization".to_vec(),
        b"pneumonoultramicroscopicsilicovolcanoconiosis".to_vec(),
    ];
    assert_eq!(
        cf_71_a::solve(&words),
        b"word\r\nl10n\r\ni18n\r\np43s".to_vec()
    );
    assert_eq!(cf_71_a::abbreviate(b"abcdefghij"), b"abcdefghij".to_vec());
}

#[test]
fn helpful_maths() {
    assert_eq!(cf_339_a::solve(&vec![3, 2, 1]), b"1+2+3".to_vec());
    assert_eq!(cf_339_a::solve(&vec![1, 1, 3, 1, 3]), b"1+1+1+3+3".to_vec());
    assert_eq!(cf_339_a::solve(&vec![2]), b"2".to_vec());
    assert_eq!(cf_339_a::solve(&vec![200, 15]), b"15+200".to_vec());
    assert_eq!(cf_339_a::sort_summands(&vec![9, 0, 255, 9]), vec![0, 9, 9, 255]);
}

#[test]
fn dot_products() {
    assert_eq!(spj_1025_2::dot(&[1, 2, 3], &[4, 5, 6]), 32);
    assert_eq!(spj_1025_2::dot(&[1, 2, 3], &[4]), 4);
    let rows = vec![vec![3], vec![1, 2, 3], vec![4, 5, 6], vec![2], vec![-1, 1], vec![1, 1]];
    assert_eq!(spj_1025_2::solve(&rows), vec![32, 0]);
    // An incomplete last group gives nothing.
    let rows = vec![vec![1], vec![7]];
    assert_eq!(spj_1025_2::solve(&rows), Vec::<i32>::new());
}

#[test]
fn factorials() {
    assert_eq!(spj_24_1::factorial(0), 1);
    assert_eq!(spj_24_1::factorial(1), 1);
    assert_eq!(spj_24_1::factorial(5), 120);
    assert_eq!(spj_24_1::factorial(12), 479_001_600);
    assert_eq!(spj_24_1::solve(&vec![1, 2, 5, 3]), vec![1, 2, 120, 6]);
}

#[test]
fn transform_expressions() {
    let lines = vec![b"(a+(b*c))".to_vec(), b"((a+b)*(z+x))".to_vec(), b"((a+t)*((b+(a+c))^(c+d)))".to_vec()];
    let out = spj_4_1::solve(&lines);
    assert_eq!(out[0], b"abc*+".to_vec());
    assert_eq!(out[1], b"ab+zx+*".to_vec());
    assert_eq!(out[2], b"at+bac++cd+^*".to_vec());
}

#[test]
fn prime_generator() {
    assert_eq!(spj_2_1::solve(1, 10), vec![2, 3, 5, 7]);
    assert_eq!(spj_2_1::solve(3, 5), vec![3, 5]);
    assert_eq!(spj_2_1::solve(90, 110), vec![97, 101, 103, 107, 109]);
    assert_eq!(spj_2_1::solve(24, 28), Vec::<u32>::new());
    let mut gen = spj_2_1::Primos::new();
    assert_eq!(gen.next(), Some(2));
    assert_eq!(gen.next(), Some(3));
    assert_eq!(gen.next(), Some(5));
    assert_eq!(gen.next(), Some(7));
    assert_eq!(gen.next(), Some(11));
}

#[test]
fn prime_generator_counts_primes() {
    let mut gen = spj_2_1::Primos::new();
    let mut last = 0;
    for _ in 0..100 {
        last = gen.next().unwrap();
    }
    assert_eq!(last, 541);
    assert_eq!(gen.next(), Some(547));
}

#[test]
fn prime_generator_program() {
    let out = spj_2_1::program(b"2\n1 10\n3 5\n").unwrap();
    assert_eq!(out, b"2\n3\n5\n7\n\n3\n5".to_vec());
    let out = spj_2_1::program(b"1\r\n  90 110 \r\n").unwrap();
    assert_eq!(out, b"97\n101\n103\n107\n109".to_vec());
    assert_eq!(spj_2_1::program(b"1\n24 28\n").unwrap(), Vec::<u8>::new());
    assert_eq!(spj_2_1::program(b"1\n7\n"), None);
    assert_eq!(spj_2_1::program(b"1\n1 x\n"), None);
}

#[test]
fn text_helpers() {
    assert_eq!(split_lines(b"a\r\nb\n\nc"), vec![b"a".to_vec(), b"b".to_vec(), vec![], b"c".to_vec()]);
    assert_eq!(split_lines(b"a\n"), vec![b"a".to_vec()]);
    assert_eq!(split_lines(b""), Vec::<Vec<u8>>::new());
    assert_eq!(split(b"1 2", b' '), vec![b"1".to_vec(), b"2".to_vec()]);
    assert_eq!(trimmed(b" \t x y \r\n"), b"x y".to_vec());
    assert_eq!(parse_u32(b"4294967295"), Some(u32::MAX));
    assert_eq!(parse_u32(b"4294967296"), None);
    assert_eq!(parse_u32(b"+12"), Some(12));
    assert_eq!(parse_u32(b"+"), None);
    assert_eq!(parse_u32(b""), None);
    assert_eq!(parse_u32(b"1a"), None);
}

#[test]
fn factorial_program() {
    let out = spj_24_1::program(b"3\n1\n5\n12\n").unwrap();
    assert_eq!(out, b"1\n120\n479001600".to_vec());
    assert_eq!(spj_24_1::program(b"1\n13\n"), None);
    assert_eq!(spj_24_1::program(b"1\nfive\n"), None);
    assert_eq!(spj_24_1::factorial_checked(12), Some(479001600));
    assert_eq!(spj_24_1::factorial_checked(13), None);
}

#[test]
fn transform_expression_program() {
    let out = spj_4_1::program(b"3\n(a+(b*c))\n((a+b)*(z+x))\n((a+t)*((b+(a+c))^(c+d)))\n").unwrap();
    assert_eq!(out, b"abc*+\nab+zx+*\nat+bac++cd+^*".to_vec());
    assert_eq!(spj_4_1::program("1\n(a+\u{e9})\n".as_bytes()), None);
}

#[test]
fn taxi_program() {
    assert_eq!(cf_158_b::program(b"5\n1 2 4 3 3\n").unwrap(), b"4".to_vec());
    assert_eq!(cf_158_b::program(b"8\r\n2 3 4 4 2 1 3 1\r\n").unwrap(), b"5".to_vec());
    assert_eq!(cf_158_b::program(b"1\n5\n"), None);
    assert_eq!(cf_158_b::program(b"1\n"), None);
}

#[test]
fn helpful_maths_program() {
    assert_eq!(cf_339_a::program(b"3+2+1\n").unwrap(), b"1+2+3".to_vec());
    assert_eq!(cf_339_a::program(b"2\n").unwrap(), b"2".to_vec());
    assert_eq!(cf_339_a::program(b"1+256\n"), None);
    assert_eq!(cf_339_a::program(b""), None);
}

#[test]
fn next_round_program() {
    assert_eq!(cf_158_a::program(b"8 5\n10 9 8 7 7 7 5 5\n").unwrap(), b"6".to_vec());
    assert_eq!(cf_158_a::program(b"4 2\n0 0 0 0\n").unwrap(), b"0".to_vec());
    assert_eq!(cf_158_a::program(b"4 2\n5 4 3 2\n").unwrap(), b"2".to_vec());
    assert_eq!(cf_158_a::program(b"4 5\n5 4 3 2\n"), None);
    assert_eq!(cf_158_a::program(b"4 2\n"), None);
    assert_eq!(cf_158_a::program(b"4 x\n1 2\n"), None);
}

#[test]
fn petya_strings_program() {
    assert_eq!(cf_112_a::program(b"aaaa\naaaA\n").unwrap(), b"0".to_vec());
    assert_eq!(cf_112_a::program(b"abs\nAbz\n").unwrap(), b"-1".to_vec());
    assert_eq!(cf_112_a::program(b"abcdefg\nAbCdEfF\n").unwrap(), b"1".to_vec());
    assert_eq!(cf_112_a::program(b"abc\n"), None);
}

#[test]
fn long_words_program() {
    let input = b"4\nword\nlocalization\ninternationalization\npneumonoultramicroscopicsilicovolcanoconiosis\n";
    let out = cf_71_a::program(input).unwrap();
    assert_eq!(out, b"word\r\nl10n\r\ni18n\r\np43s".to_vec());
    assert_eq!(cf_71_a::program(b"0\n").unwrap(), Vec::<u8>::new());
    assert_eq!(cf_71_a::program(b"-3\nabc\n").unwrap(), Vec::<u8>::new());
    assert_eq!(cf_71_a::program(b"3\nabc\n"), None);
    assert_eq!(cf_71_a::program(b"x\n"), None);
}

#[test]
fn dominoes_program() {
    assert_eq!(cf_50_a::program(b"2 4\n").unwrap(), b"4".to_vec());
    assert_eq!(cf_50_a::program(b"3 3\n").unwrap(), b"4".to_vec());
    assert_eq!(cf_50_a::program(b"0 5\n").unwrap(), b"0".to_vec());
    assert_eq!(cf_50_a::program(b"7\n"), None);
    assert_eq!(cf_50_a::program(b"65536 65536\n"), None);
}

#[test]
fn theatre_square_program() {
    assert_eq!(cf_1_a::program(b"6 6 4\n").unwrap(), b"4".to_vec());
    assert_eq!(cf_1_a::program(b"1000000000 1000000000 1\n").unwrap(), b"1000000000000000000".to_vec());
    assert_eq!(cf_1_a::program(b"6 6 0\n"), None);
    assert_eq!(cf_1_a::program(b"6 6\n"), None);
}

#[test]
fn dot_products_program() {
    let out = spj_1025_2::program(b"2\n3\n1 2 3\n4 5 6\n2\n-1 1\n1 1\n").unwrap();
    assert_eq!(out, b"32\n0".to_vec());
    let out = spj_1025_2::program(b"1\n1\n-7\n3\n").unwrap();
    assert_eq!(out, b"-21".to_vec());
    assert_eq!(spj_1025_2::program(b"1\n1\n2147483647\n2\n"), None);
    assert_eq!(spj_1025_2::program(b"1\n1\nq\n2\n"), None);
    assert_eq!(spj_1025_2::dot_checked(&[1, 2], &[3, 4, 5]), Some(11));
    assert_eq!(spj_1025_2::dot_checked(&[i32::MAX, 1], &[1, 1]), None);
}
