use tyutyun_shop::catalog::Size;
use tyutyun_shop::error::NotificationError;
use tyutyun_shop::mail::body::{order_body, registration_body, sum_of_totals};
use tyutyun_shop::mail::compose::{
    both_or_refused, built_or_refused, compose, new_order_draft, new_order_mail,
    new_order_receipt, registration_draft, registration_mail, registration_receipt, MailDraft,
};
use tyutyun_shop::mail::settings::{generate_registration_link, mail_settings, MailSettings};
use tyutyun_shop::order::{OrderDetails, OrderItemDetails, ShippingInfo};

fn details(email: &str) -> OrderDetails {
    OrderDetails {
        order_id: 12,
        shipping: ShippingInfo {
            address: "Khreshchatyk 1, Kyiv".to_string(),
            first_name: "Olena".to_string(),
            last_name: "Shevchenko".to_string(),
            phone_number: "+380501234567".to_string(),
            email: email.to_string(),
        },
        items: vec![
            OrderItemDetails {
                product_name: "Hoodie".to_string(),
                quantity: 2,
                size: Size::S,
                total_price: 2000,
            },
            OrderItemDetails {
                product_name: "Cap".to_string(),
                quantity: 1,
                size: Size::Single,
                total_price: 250,
            },
        ],
    }
}

fn draft(sender: &str, recipient: &str) -> MailDraft {
    MailDraft {
        sender: sender.to_string(),
        recipient: recipient.to_string(),
        subject: "Hello".to_string(),
        html: "<p>Hi</p>".to_string(),
    }
}

fn headers(message: &lettre::Message) -> String {
    let text = String::from_utf8_lossy(&message.formatted()).to_string();
    match text.find("\r\n\r\n") {
        Some(end) => text[..end].to_string(),
        None => text,
    }
}

#[test]
fn registration_link_uses_configured_server() {
    assert_eq!(
        generate_registration_link(Some("shop.example.com"), Some("443"), "abc123"),
        "http://shop.example.com:443/api/registration?token=abc123"
    );
}

#[test]
fn registration_link_falls_back_to_defaults() {
    assert_eq!(
        generate_registration_link(None, None, "abc123"),
        "http://127.0.0.1:8181/api/registration?token=abc123"
    );
    assert_eq!(
        generate_registration_link(Some("10.0.0.7"), None, ""),
        "http://10.0.0.7:8181/api/registration?token="
    );
    assert_eq!(
        generate_registration_link(None, Some("80"), "t"),
        "http://127.0.0.1:80/api/registration?token=t"
    );
}

#[test]
fn mail_settings_take_what_is_configured() {
    assert_eq!(
        mail_settings(
            Some("smtp.example.com".to_string()),
            Some("2525".to_string()),
            Some("shop".to_string()),
            Some("secret".to_string()),
        ),
        Ok(MailSettings {
            smtp_server: "smtp.example.com".to_string(),
            smtp_port: 2525,
            username: "shop".to_string(),
            password: "secret".to_string(),
        })
    );
}

#[test]
fn mail_settings_default_port() {
    let settings = mail_settings(
        Some("smtp.example.com".to_string()),
        None,
        Some("shop".to_string()),
        Some("secret".to_string()),
    )
    .unwrap();
    assert_eq!(settings.smtp_port, 587);
}

#[test]
fn mail_settings_refuse_what_is_missing_or_malformed() {
    let server = || Some("smtp.example.com".to_string());
    let user = || Some("shop".to_string());
    let secret = || Some("secret".to_string());
    assert_eq!(mail_settings(None, None, user(), secret()), Err(NotificationError::Settings));
    assert_eq!(mail_settings(server(), None, None, secret()), Err(NotificationError::Settings));
    assert_eq!(mail_settings(server(), None, user(), None), Err(NotificationError::Settings));
    assert_eq!(
        mail_settings(server(), Some("smtp".to_string()), user(), secret()),
        Err(NotificationError::Settings)
    );
    assert_eq!(
        mail_settings(server(), Some("70000".to_string()), user(), secret()),
        Err(NotificationError::Settings)
    );
    assert_eq!(
        mail_settings(server(), Some("".to_string()), user(), secret()),
        Err(NotificationError::Settings)
    );
}

#[test]
fn registration_body_carries_the_link() {
    let body = registration_body("http://127.0.0.1:8181/api/registration?token=abc");
    assert!(body.contains(
        "<a href=\"http://127.0.0.1:8181/api/registration?token=abc\" class=\"button\">"
    ));
    assert!(body.contains("<!DOCTYPE html>"));
    assert!(body.contains("background-color: #1a1a1a;"));
    assert!(body.contains("body {"));
    assert!(!body.contains("{{"));
    assert!(body.trim_end().ends_with("</html>"));
    assert_eq!(body.matches("http://127.0.0.1:8181").count(), 1);
    let empty = registration_body("");
    assert_eq!(body.chars().count(), empty.chars().count() + 48);
}

#[test]
fn order_body_shows_contact_rows_and_sum() {
    let body = order_body(&details("olena@example.com"));
    assert!(body.contains("</strong> Khreshchatyk 1, Kyiv</p>"));
    assert!(body.contains("</strong> Olena Shevchenko</p>"));
    assert!(body.contains("</strong> +380501234567</p>"));
    assert!(body.contains("</strong> olena@example.com</p>"));
    let cells: Vec<String> = body
        .split("<td>")
        .skip(1)
        .map(|cell| cell.split("</td>").next().unwrap().to_string())
        .collect();
    assert_eq!(
        cells,
        vec!["Hoodie", "2", "S", "2000 грн", "Cap", "1", "N/A", "250 грн"]
    );
    assert_eq!(body.matches("<tr>").count(), 3);
    assert!(body.contains("</strong> 2250 грн"));
    assert!(!body.contains("{{"));
    assert!(body.trim_end().ends_with("</html>"));
}

#[test]
fn order_body_without_items() {
    let mut bare = details("olena@example.com");
    bare.items.clear();
    let body = order_body(&bare);
    assert_eq!(body.matches("<td>").count(), 0);
    assert!(body.contains("</strong> 0 грн"));
}

#[test]
fn sum_of_totals_adds_the_lines() {
    assert_eq!(sum_of_totals(&details("a@b.c").items), 2250);
    assert_eq!(sum_of_totals(&vec![]), 0);
    let large = OrderItemDetails {
        product_name: "Gold".to_string(),
        quantity: 1,
        size: Size::Single,
        total_price: i64::MAX,
    };
    assert_eq!(sum_of_totals(&vec![large.clone(), large.clone(), large]), 3 * (i64::MAX as i128));
}

#[test]
fn registration_mail_goes_to_the_account() {
    let message = registration_mail("user@example.com", "http://127.0.0.1/x").unwrap();
    let head = headers(&message);
    assert!(head.contains("To: user@example.com"));
    assert!(head.contains("tyutyun-shop@yacode.dev"));
    assert!(head.contains("Subject: "));
    assert!(head.contains("Content-Type: text/html; charset=utf-8"));
    assert_eq!(message.envelope().to().len(), 1);
    assert_eq!(message.envelope().to()[0].to_string(), "user@example.com");
    assert_eq!(message.envelope().from().unwrap().to_string(), "tyutyun-shop@yacode.dev");
}

#[test]
fn new_order_mail_goes_to_the_shipping_contact() {
    let message = new_order_mail(&details("olena@example.com")).unwrap();
    assert_eq!(message.envelope().to().len(), 1);
    assert_eq!(message.envelope().to()[0].to_string(), "olena@example.com");
    assert!(headers(&message).contains("To: olena@example.com"));
}

#[test]
fn mail_to_what_is_no_address_is_refused() {
    assert!(matches!(
        registration_mail("not an address", "http://127.0.0.1/x"),
        Err(NotificationError::Address)
    ));
    assert!(matches!(registration_mail("", "link"), Err(NotificationError::Address)));
    assert!(matches!(
        registration_mail("user@", "link"),
        Err(NotificationError::Address)
    ));
    assert!(matches!(new_order_mail(&details("olena")), Err(NotificationError::Address)));
    assert!(matches!(
        compose(draft("shop@example.com", "a@b@c")),
        Err(NotificationError::Address)
    ));
    assert!(matches!(
        compose(draft("shop", "user@example.com")),
        Err(NotificationError::Address)
    ));
    assert!(matches!(compose(draft("", "")), Err(NotificationError::Address)));
}

#[test]
fn drafts_say_what_goes_to_whom() {
    let registration = registration_draft("user@example.com", "http://127.0.0.1/x");
    assert_eq!(
        registration,
        MailDraft {
            sender: "Tyutyun Shop <tyutyun-shop@yacode.dev>".to_string(),
            recipient: "user@example.com".to_string(),
            subject: "Активація аккаунта - Tyutyun Shop".to_string(),
            html: registration_body("http://127.0.0.1/x"),
        }
    );
    let order = new_order_draft(&details("olena@example.com"));
    assert_eq!(
        order,
        MailDraft {
            sender: "Tyutyun Shop <tyutyun-shop@yacode.dev>".to_string(),
            recipient: "olena@example.com".to_string(),
            subject: "Деталі нового замовлення - Tyutyun Shop".to_string(),
            html: order_body(&details("olena@example.com")),
        }
    );
}

#[test]
fn compose_accepts_a_display_name() {
    let message = compose(draft("Shop <shop@example.com>", "Olena <olena@example.com>")).unwrap();
    assert_eq!(message.envelope().to()[0].to_string(), "olena@example.com");
    assert_eq!(message.envelope().from().unwrap().to_string(), "shop@example.com");
    let text = String::from_utf8_lossy(&message.formatted()).to_string();
    assert!(text.contains("Subject: Hello"));
    assert!(text.contains("<p>Hi</p>"));
}

#[test]
fn parsed_mailboxes_are_passed_on() {
    let from: lettre::message::Mailbox = "shop@example.com".parse().unwrap();
    let to: lettre::message::Mailbox = "user@example.com".parse().unwrap();
    let no_mailbox = || "nobody".parse::<lettre::message::Mailbox>();
    assert!(no_mailbox().is_err());
    assert_eq!(both_or_refused(Ok(from.clone()), Ok(to.clone())), Ok((from.clone(), to.clone())));
    assert_eq!(both_or_refused(no_mailbox(), Ok(to)), Err(NotificationError::Address));
    assert_eq!(both_or_refused(Ok(from), no_mailbox()), Err(NotificationError::Address));
    assert_eq!(both_or_refused(no_mailbox(), no_mailbox()), Err(NotificationError::Address));
}

#[test]
fn refused_build_is_reported() {
    assert!(matches!(
        built_or_refused(Err(lettre::error::Error::MissingTo)),
        Err(NotificationError::Message)
    ));
    assert!(matches!(
        built_or_refused(Err(lettre::error::Error::MissingFrom)),
        Err(NotificationError::Message)
    ));
    let message = compose(draft("shop@example.com", "user@example.com")).unwrap();
    let bytes = message.formatted();
    assert_eq!(built_or_refused(Ok(message)).unwrap().formatted(), bytes);
}

#[test]
fn receipts_name_the_recipient() {
    assert_eq!(
        registration_receipt("user@example.com"),
        "Activation email sent successfully to user@example.com"
    );
    assert_eq!(
        new_order_receipt("olena@example.com"),
        "Order confirmation email sent successfully to olena@example.com"
    );
}
