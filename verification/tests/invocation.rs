use datefind::command::{OutputFormat, Tesseract, TesseractCommand};
use datefind::data::{IdVerif, InformationTessract, image_to_string};
use datefind::format::ImageFormat;

#[test]
fn no_options_give_empty_args() {
    let command = TesseractCommand::new(None, None, None, None, None, None, None, None);
    assert_eq!(command.to_command_args(), "");
}

#[test]
fn language_option_alone() {
    let command = TesseractCommand::new(
        Some(String::from("eng")),
        None,
        None,
        None,
        None,
        None,
        None,
        None,
    );
    assert_eq!(command.to_command_args(), "-l eng");
}

#[test]
fn numeric_options_are_rendered_in_decimal() {
    let command =
        TesseractCommand::new(None, Some(6), Some(3), None, None, None, None, None);
    assert_eq!(command.to_command_args(), "--psm 6 --oem 3");
    let edges = TesseractCommand::new(None, Some(0), Some(255), None, None, None, None, None);
    assert_eq!(edges.to_command_args(), "--psm 0 --oem 255");
    let tens = TesseractCommand::new(None, Some(10), Some(99), None, None, None, None, None);
    assert_eq!(tens.to_command_args(), "--psm 10 --oem 99");
}

#[test]
fn every_option_in_order() {
    let command = TesseractCommand::new(
        Some(String::from("eng")),
        Some(6),
        Some(1),
        Some(String::from("pdf")),
        Some(String::from("cfg")),
        Some(String::from("pat")),
        Some(String::from("words")),
        Some(String::from("unused")),
    );
    assert_eq!(
        command.to_command_args(),
        "-l eng --psm 6 --oem 1 -c tessedit_create_pdf cfg -c user_patterns_file=pat -c user_words_file=words"
    );
}

#[test]
fn lang_path_takes_no_part_in_args() {
    let command = TesseractCommand::new(
        None,
        None,
        None,
        None,
        None,
        None,
        None,
        Some(String::from("somewhere")),
    );
    assert_eq!(command.to_command_args(), "");
}

#[test]
fn output_format_words() {
    assert_eq!(OutputFormat::StdOut.to_arg(), "stdout");
    assert_eq!(OutputFormat::Output.to_arg(), "output");
    assert_eq!(OutputFormat::Pdf.to_arg(), "pdf");
}

#[test]
fn image_format_names() {
    assert_eq!(ImageFormat::JPEG.to_name(), "jpeg");
    assert_eq!(ImageFormat::PNG.to_name(), "png");
}

#[test]
fn image_format_from_name() {
    assert_eq!(ImageFormat::from_name("jpeg").unwrap(), ImageFormat::JPEG);
    assert_eq!(ImageFormat::from_name("png").unwrap(), ImageFormat::PNG);
    match ImageFormat::from_name("gif") {
        Err(m) => assert_eq!(m, "The format of image is not supposed"),
        Ok(_) => panic!("expected an error for an unknown name"),
    }
}

#[test]
fn default_image_format_is_png() {
    assert_eq!(ImageFormat::default(), ImageFormat::PNG);
}

#[test]
fn extract_data_hands_out_both_parts() {
    let info = InformationTessract::default();
    let (command, engine) = info.extract_data();
    assert!(command.is_none());
    assert!(engine.data.language.is_none());
}

#[test]
fn empty_path_is_rejected_before_invocation() {
    let verif = IdVerif::default();
    match verif.get_data_from_img() {
        Err(m) => assert_eq!(m, "this must be initialized with valid picture path image"),
        Ok(_) => panic!("an empty path must be rejected"),
    }
}

#[test]
fn invocation_plan_carries_path_mode_and_args() {
    let verif = IdVerif {
        image_format: ImageFormat::PNG,
        path: String::from("Capture.PNG"),
        output_format: OutputFormat::Output,
        information_tesseract: InformationTessract::Data {
            command: None,
            engine: Tesseract {
                data: TesseractCommand::new(
                    Some(String::from("eng")),
                    Some(6),
                    None,
                    None,
                    None,
                    None,
                    None,
                    None,
                ),
            },
        },
    };
    let inv = verif.get_data_from_img().unwrap();
    assert_eq!(inv.image_path, "Capture.PNG");
    assert_eq!(inv.output_selector, "output");
    assert_eq!(inv.extra_args, "-l eng --psm 6");
}

#[test]
fn image_to_string_forwards_the_configuration() {
    let verif = IdVerif {
        path: String::from("scan.png"),
        ..IdVerif::default()
    };
    let inv = image_to_string(verif).unwrap();
    assert_eq!(inv.image_path, "scan.png");
    assert_eq!(inv.output_selector, "stdout");
    assert_eq!(inv.extra_args, "");
}

#[test]
fn idverif_new_keeps_the_fields() {
    let verif = IdVerif {
        path: String::from("p.png"),
        ..IdVerif::default()
    };
    let copy = IdVerif::new(verif);
    assert_eq!(copy.path, "p.png");
    assert_eq!(copy.image_format, ImageFormat::PNG);
}
