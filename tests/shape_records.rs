use nlbn::model3d::model_from_attrs;
use nlbn::shapes::{pad_shape, pin_style, pin_type, PadShape, PinStyle, PinType};
use nlbn::shapes::{map_layer, pad_layers, Layer};
use nlbn::model3d::{extract_3d_model_from_svgnode, Model3dInfo};
use nlbn::shapes::{
    arc_path_flags, coordinate_pairs, interpret_path, pad_type, polygon_outline_usable,
    rectangle_outline, symbol_rectangle_fills, track_segments, word_kind, PadType, PathToken,
    WordKind,
};

fn lex(path: &str) -> Vec<PathToken<f64>> {
    path.split_whitespace()
        .map(|w| match word_kind(w) {
            WordKind::Draw => PathToken::Draw,
            WordKind::Close => PathToken::Close,
            WordKind::Pair => {
                let (x, y) = w.split_once(',').unwrap();
                match (x.parse::<f64>(), y.parse::<f64>()) {
                    (Ok(x), Ok(y)) => PathToken::Pair(Some((x, y))),
                    _ => PathToken::Pair(None),
                }
            }
            WordKind::Plain => match w.parse::<f64>() {
                Ok(v) => PathToken::Number(v),
                Err(_) => PathToken::Word,
            },
        })
        .collect()
}

#[test]
fn closed_square_path() {
    let pts = interpret_path(&lex("M 0,0 L 10,0 L 10,10 Z"));
    assert_eq!(pts, vec![(0.0, 0.0), (10.0, 0.0), (10.0, 10.0), (0.0, 0.0)]);
}

#[test]
fn separate_coordinates_and_unknown_words() {
    let pts = interpret_path(&lex("M 1 2 Q L 3,4 L x,5 z"));
    assert_eq!(pts, vec![(1.0, 2.0), (3.0, 4.0), (1.0, 2.0)]);
}

#[test]
fn close_without_points_adds_nothing() {
    assert!(interpret_path(&lex("Z M")).is_empty());
}

#[test]
fn word_kinds() {
    assert_eq!(word_kind("M"), WordKind::Draw);
    assert_eq!(word_kind("L"), WordKind::Draw);
    assert_eq!(word_kind("z"), WordKind::Close);
    assert_eq!(word_kind("1,2"), WordKind::Pair);
    assert_eq!(word_kind("MM"), WordKind::Plain);
}

#[test]
fn first_rectangle_is_filled() {
    assert_eq!(symbol_rectangle_fills(&vec![false, false, true]), vec![true, false, true]);
    assert_eq!(symbol_rectangle_fills(&vec![true, true]), vec![true, true]);
    assert!(symbol_rectangle_fills(&vec![]).is_empty());
}

#[test]
fn track_to_segments() {
    let segs = track_segments(&vec![0, 0, 10, 0, 10, 5, 7]);
    assert_eq!(segs, vec![(0, 0, 10, 0), (10, 0, 10, 5)]);
    assert!(track_segments(&vec![1, 2, 3]).is_empty());
}

#[test]
fn polygon_pairs() {
    assert_eq!(coordinate_pairs(&vec![1, 2, 3, 4, 5]), vec![(1, 2), (3, 4)]);
    assert!(polygon_outline_usable(true, 4));
    assert!(!polygon_outline_usable(true, 3));
    assert!(!polygon_outline_usable(false, 8));
}

#[test]
fn rectangle_edges() {
    assert_eq!(
        rectangle_outline(0, 0, 2, 1),
        vec![(0, 0, 2, 0), (2, 0, 2, 1), (2, 1, 0, 1), (0, 1, 0, 0)]
    );
}

#[test]
fn arc_flags() {
    let w: Vec<String> = "M 0 0 A 5 5 0 1 0 10 0".split_whitespace().map(String::from).collect();
    assert_eq!(arc_path_flags(&w), Some((true, false)));
    let bad: Vec<String> = "L 0 0 A 5 5 0 1 0 10 0".split_whitespace().map(String::from).collect();
    assert_eq!(arc_path_flags(&bad), None);
    let short: Vec<String> = "M 0 0 A 5 5".split_whitespace().map(String::from).collect();
    assert_eq!(arc_path_flags(&short), None);
}

#[test]
fn pad_classification() {
    assert_eq!(pad_type(true), PadType::ThroughHole);
    assert_eq!(pad_type(false), PadType::Smd);
}

#[test]
fn model_from_marker_record() {
    let shapes = vec![
        "TRACK~1~3~~0 0 10 0".to_string(),
        "SVGNODE~{\"attrs\":{\"c_etype\":\"other\",\"uuid\":\"u0\",\"title\":\"t0\"}}".to_string(),
        "SVGNODE~{\"attrs\":{\"c_etype\":\"outline3D\",\"uuid\":\"abc\"}}~x".to_string(),
        "SVGNODE~{\"attrs\":{\"c_etype\":\"outline3D\",\"uuid\":\"u1\",\"title\":\"SOT-23\"}}~gge1".to_string(),
        "SVGNODE~{\"attrs\":{\"c_etype\":\"outline3D\",\"uuid\":\"u2\",\"title\":\"late\"}}".to_string(),
    ];
    assert_eq!(
        extract_3d_model_from_svgnode(&shapes),
        Some(Model3dInfo { uuid: "u1".to_string(), title: "SOT-23".to_string() })
    );
}

#[test]
fn no_model_without_marker() {
    let shapes = vec!["SVGNODE~not json".to_string(), "PAD~RECT~1".to_string()];
    assert_eq!(extract_3d_model_from_svgnode(&shapes), None);
    assert_eq!(extract_3d_model_from_svgnode(&vec![]), None);
}

#[test]
fn pad_shapes_and_pins() {
    assert_eq!(pad_shape("ELLIPSE"), PadShape::Circle);
    assert_eq!(pad_shape("OVAL"), PadShape::Oval);
    assert_eq!(pad_shape("POLYGON"), PadShape::Custom);
    assert_eq!(pad_shape("RECT"), PadShape::Rect);
    assert_eq!(pin_type("1"), PinType::Input);
    assert_eq!(pin_type("4"), PinType::PowerIn);
    assert_eq!(pin_type("0"), PinType::Unspecified);
    assert_eq!(pin_style(true, true), PinStyle::Inverted);
    assert_eq!(pin_style(false, true), PinStyle::Clock);
    assert_eq!(pin_style(false, false), PinStyle::Line);
}

#[test]
fn layers_of_pads_and_graphics() {
    assert_eq!(map_layer(3), Layer::FrontSilk);
    assert_eq!(map_layer(99), Layer::UserDrawings);
    assert_eq!(
        pad_layers(PadType::Smd, 2),
        vec![Layer::BackCopper, Layer::BackPaste, Layer::BackMask]
    );
    assert_eq!(
        pad_layers(PadType::ThroughHole, 11),
        vec![Layer::FrontCopper, Layer::BackCopper, Layer::FrontMask, Layer::BackMask]
    );
}

#[test]
fn model_from_marker_attributes() {
    let s = |v: &str| Some(v.to_string());
    assert_eq!(
        model_from_attrs(&s("outline3D"), s("u"), s("t")),
        Some(Model3dInfo { uuid: "u".to_string(), title: "t".to_string() })
    );
    assert_eq!(model_from_attrs(&s("outline"), s("u"), s("t")), None);
    assert_eq!(model_from_attrs(&None, s("u"), s("t")), None);
    assert_eq!(model_from_attrs(&s("outline3D"), None, s("t")), None);
    assert_eq!(model_from_attrs(&s("outline3D"), s("u"), None), None);
}
