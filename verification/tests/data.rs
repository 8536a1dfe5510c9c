use lanis_rs::base::account::{AccountSecrets, AccountType, UntisSecrets};
use lanis_rs::base::schools::{get_school, get_school_id, School};
use lanis_rs::modules::calendar::{CalendarExports, StudyGroup};
use lanis_rs::modules::file_storage::FolderNode;
use lanis_rs::modules::messages::ConversationType;
use lanis_rs::utils::constants::URL;
use lanis_rs::utils::text::{bytes_eq, text_eq};
use lanis_rs::{Error, LessonUploadError};

fn schools() -> Vec<School> {
    vec![
        School {
            id: 3120,
            name: String::from("The Almighty Rust School"),
            city: String::from("Rust City"),
        },
        School {
            id: 3920,
            name: String::from("The Almighty Rust School"),
            city: String::from("Rust City 2"),
        },
        School {
            id: 4031,
            name: String::from("The Almighty Rust School 2"),
            city: String::from("Rust City"),
        },
    ]
}

#[test]
fn test_schools_get_school_id() {
    let result = get_school_id("The Almighty Rust School", "Rust City 2", &schools());
    assert_eq!(result, 3920);
}

#[test]
fn school_id_of_an_unknown_school_is_minus_one() {
    assert_eq!(get_school_id("The Almighty Rust School", "Rust City 3", &schools()), -1);
    assert_eq!(get_school_id("Rust City", "The Almighty Rust School", &schools()), -1);
    assert_eq!(get_school_id("any", "where", &Vec::new()), -1);
}

#[test]
fn school_id_is_that_of_the_first_match() {
    let mut list = schools();
    list.push(School {
        id: 1,
        name: String::from("The Almighty Rust School"),
        city: String::from("Rust City"),
    });
    assert_eq!(get_school_id("The Almighty Rust School", "Rust City", &list), 3120);
}

#[test]
fn school_is_found_by_id() {
    let found = get_school(&4031, &schools()).unwrap();
    assert_eq!(found, schools()[2]);
    match get_school(&7, &schools()) {
        Err(Error::SchoolNotFound(message)) => assert_eq!(message, "No school with id 7 found"),
        _ => panic!("a school with id 7 was found"),
    }
}

#[test]
fn errors_are_rendered_with_their_message() {
    assert_eq!(Error::Network(String::from("down")).to_text(), "Error::Network(down)");
    assert_eq!(Error::Parsing(String::from("p")).to_text(), "Error::Parsing(p)");
    assert_eq!(Error::Crypto(String::new()).to_text(), "Error::Crypto()");
    assert_eq!(Error::Html(String::from("h")).to_text(), "Error::Html(h)");
    assert_eq!(Error::Credentials(String::from("c")).to_text(), "Error::Credentials(c)");
    assert_eq!(Error::UntisAPI(String::from("u")).to_text(), "Error::UntisAPI(u)");
    assert_eq!(Error::DateTime(String::from("d")).to_text(), "Error::DateTime(d)");
    assert_eq!(Error::Threading(String::from("t")).to_text(), "Error::Threading(t)");
    assert_eq!(Error::NoSchool(String::from("n")).to_text(), "Error::NoSchool(n)");
    assert_eq!(Error::KeyPair.to_text(), "Error::KeyPair");
    assert_eq!(Error::Login(String::from("l")).to_text(), "Error::Login(l)");
    assert_eq!(Error::SchoolNotFound(String::from("s")).to_text(), "Error::SchoolNotFound(s)");
    assert_eq!(Error::ServerSide(String::from("x")).to_text(), "Error::ServerSide(x)");
    assert_eq!(Error::FileSystem(String::from("f")).to_text(), "Error::FileSystem(f)");
    assert_eq!(
        Error::LessonUploadError(LessonUploadError::Network(String::from("n"))).to_text(),
        "Error::LessonUploadError(LessonUploadError::Network(n))"
    );
}

#[test]
fn upload_errors_are_rendered() {
    assert_eq!(LessonUploadError::NoInfo.to_text(), "LessonUploadError::NoInfo");
    assert_eq!(LessonUploadError::NoDetailedInfo.to_text(), "LessonUploadError::NoDetailedInfo");
    assert_eq!(LessonUploadError::WrongPassword.to_text(), "LessonUploadError::WrongPassword");
    assert_eq!(
        LessonUploadError::EncryptionFailed(String::from("e")).to_text(),
        "LessonUploadError::EncryptionFailed(e)"
    );
    assert_eq!(LessonUploadError::DeletionFailed.to_text(), "LessonUploadError::DeletionFailed");
    assert_eq!(LessonUploadError::Unknown.to_text(), "LessonUploadError::Unknown");
    assert_eq!(
        LessonUploadError::UnknownServerError.to_text(),
        "LessonUploadError::UnknownServerError"
    );
}

#[test]
fn account_types_are_rendered() {
    assert_eq!(AccountType::Student.to_text(), "Student");
    assert_eq!(AccountType::Teacher.to_text(), "Teacher");
    assert_eq!(AccountType::Parent.to_text(), "Parent");
    assert_eq!(AccountType::Unknown.to_text(), "Unknown");
}

#[test]
fn conversation_types_have_their_portal_words() {
    assert_eq!(ConversationType::NoAnswersAllowed.to_lanis_string(), "noAnswerAllowed");
    assert_eq!(ConversationType::PrivateAnswersOnly.to_lanis_string(), "privateAnswerOnly");
    assert_eq!(ConversationType::GroupOnly.to_lanis_string(), "groupOnly");
    assert_eq!(ConversationType::OpenChat.to_lanis_string(), "openChat");
    assert_eq!(ConversationType::NoAnswersAllowed.to_text(), "NoAnswersAllowed");
    assert_eq!(ConversationType::PrivateAnswersOnly.to_text(), "PrivateAnswersOnly");
    assert_eq!(ConversationType::GroupOnly.to_text(), "GroupOnly");
    assert_eq!(ConversationType::OpenChat.to_text(), "OpenChat");
}

#[test]
fn constructors_keep_their_arguments() {
    let secrets = AccountSecrets::new(5182, String::from("max"), String::from("secret"));
    assert_eq!(secrets.school_id, 5182);
    assert_eq!(secrets.username, "max");
    assert_eq!(secrets.password, "secret");
    assert_eq!(secrets.untis_secrets, None);

    let untis = UntisSecrets::new(String::from("school"), String::from("max"), String::from("pw"));
    assert_eq!(untis.school_name, "school");
    assert_eq!(untis.username, "max");
    assert_eq!(untis.password, "pw");

    let group = StudyGroup::new(7, String::from("Q1"));
    assert_eq!(group.id, 7);
    assert_eq!(group.name, "Q1");

    let exports = CalendarExports::new(vec![2023, 2024]);
    assert_eq!(exports.available_years, vec![2023, 2024]);

    let node = FolderNode::new(3, String::from("docs"), Some(String::from("all of them")), 2);
    assert_eq!(node.id, 3);
    assert_eq!(node.name, "docs");
    assert_eq!(node.description, Some(String::from("all of them")));
    assert_eq!(node.subfolders, 2);
}

#[test]
fn portal_addresses() {
    assert_eq!(URL::AJAX, "https://start.schulportal.hessen.de/ajax.php");
    assert_eq!(URL::BASE, "https://start.schulportal.hessen.de/");
    assert_eq!(URL::MESSAGES, "https://start.schulportal.hessen.de/nachrichten.php");
}

#[test]
fn texts_are_compared_by_their_characters() {
    assert!(text_eq("", ""));
    assert!(text_eq("gr\u{fc}n", "gr\u{fc}n"));
    assert!(!text_eq("gr\u{fc}n", "grun"));
    assert!(!text_eq("a", "ab"));
    assert!(bytes_eq(&[1, 2, 3], &[1, 2, 3]));
    assert!(!bytes_eq(&[1, 2, 3], &[1, 2, 4]));
    assert!(!bytes_eq(&[1, 2, 3], &[1, 2]));
}
