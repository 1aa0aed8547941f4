use webview_custom::text::{parse_u64, push_decimal, replace_all_exec, split_exec};

fn c(s: &str) -> Vec<char> {
    s.chars().collect()
}

#[test]
fn parse_like_std() {
    for t in ["0", "+1", "007", "18446744073709551615", "", "+", "-1", " 1", "1 ", "18446744073709551616", "1a", "٣"] {
        assert_eq!(parse_u64(&c(t)), t.parse::<u64>().ok(), "input {:?}", t);
    }
}

#[test]
fn decimal_like_format() {
    for n in [0u64, 7, 10, 99, 100, 123456789, u64::MAX] {
        let mut out = c("x");
        push_decimal(&mut out, n);
        assert_eq!(out.iter().collect::<String>(), format!("x{}", n));
        assert_eq!(parse_u64(&out[1..]), Some(n));
    }
}

#[test]
fn replace_like_std() {
    for (s, from, to) in [("aaaa", "aa", "b"), ("abcabc", "bc", ""), ("", "x", "y"), ("xyz", "xyzw", "q"), ("windowindow.", "window.", "w.")] {
        let r: String = replace_all_exec(&c(s), &c(from), &c(to)).into_iter().collect();
        assert_eq!(r, s.replace(from, to));
    }
}

#[test]
fn split_like_std() {
    for s in ["a/b", "/a/", "", "abc", "//"] {
        let pieces: Vec<String> = split_exec(&c(s), '/').into_iter().map(|p| p.into_iter().collect()).collect();
        let expected: Vec<String> = s.split('/').map(|p| p.to_string()).collect();
        assert_eq!(pieces, expected);
    }
}
