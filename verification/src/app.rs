//! The state of the application around the device page: which device is
//! selected, which side page is shown, and what each message leads to.

use vstd::prelude::*;
use crate::content;
use crate::content::Content;
use crate::device::{error_text, DeviceError, VideoDevice};
use crate::settings;

verus! {

/// The state of the application.
#[derive(Debug, PartialEq, Eq)]
pub struct App {
    /// The side page that was shown last.
    pub context_page: ContextPage,
    /// Whether the side page is shown.
    pub show_context: bool,
    /// The page of the selected device.
    pub content: Content,
    /// The device that is selected, with its control tree.
    pub selected_device: Option<VideoDevice>,
}

/// What reaches the application.
#[derive(Clone, Debug, PartialEq, Eq)]
pub enum Message {
    /// The user acted on the device page.
    Content(content::Message),
    /// A link was followed.
    LaunchUrl(String),
    /// A side page was asked for.
    ToggleContextPage(ContextPage),
    /// The user acted on the settings page.
    Setting(settings::Message),
}

/// A page of the navigation bar.
#[derive(Clone, Debug, PartialEq, Eq)]
pub enum Page {
    /// The form of the device at this path.
    VideoDeviceForm(String),
}

/// The path of the device that a page shows.
pub open spec fn page_path(page: Page) -> Seq<char> {
    match page {
        Page::VideoDeviceForm(path) => path@,
    }
}

/// The side pages.
#[derive(Clone, Copy, Debug, PartialEq, Eq, Structural)]
pub enum ContextPage {
    About,
    Settings,
}

/// The entries of the menu.
#[derive(Clone, Copy, Debug, PartialEq, Eq, Structural)]
pub enum MenuAction {
    About,
    ToggleSettings,
}

/// What the application asks its caller to do after a message.
#[derive(Clone, Debug, PartialEq, Eq)]
pub enum Command {
    /// Nothing.
    Idle,
    /// Open the link with the system's handler.
    LaunchUrl(String),
    /// Carry out what the device page asked for, if anything, and then
    /// resolve the selected device again, so that the page shows what the
    /// device reports after the change.
    Device(Option<content::Task>),
}

impl Default for ContextPage {
    fn default() -> (page: ContextPage)
        ensures
            page == ContextPage::About,
    {
        ContextPage::About
    }
}

/// The name of the message that titles a side page.
pub open spec fn title_key(page: ContextPage) -> Seq<char> {
    match page {
        ContextPage::About => "menu-about"@,
        ContextPage::Settings => "menu-settings"@,
    }
}

impl ContextPage {
    /// The name of the message that titles the page; the caller looks it up
    /// in the user's language.
    pub fn title(&self) -> (key: String)
        ensures
            key@ == title_key(*self),
    {
        match self {
            ContextPage::About => "menu-about".to_owned(),
            ContextPage::Settings => "menu-settings".to_owned(),
        }
    }
}

/// The side page that a menu entry asks for.
pub open spec fn action_page(action: MenuAction) -> ContextPage {
    match action {
        MenuAction::About => ContextPage::About,
        MenuAction::ToggleSettings => ContextPage::Settings,
    }
}

impl MenuAction {
    /// The message that the menu entry sends.
    pub fn message(&self) -> (message: Message)
        ensures
            message == Message::ToggleContextPage(action_page(*self)),
    {
        match self {
            MenuAction::About => Message::ToggleContextPage(ContextPage::About),
            MenuAction::ToggleSettings => Message::ToggleContextPage(ContextPage::Settings),
        }
    }
}

/// The title of the window: the application's title, followed by a dash
/// and the title of the active page where there is one.
pub open spec fn window_title(app_title: Seq<char>, page: Option<&str>) -> Seq<char> {
    match page {
        Some(page) => app_title + " \u{2014} "@ + page@,
        None => app_title,
    }
}

/// The title of the header: the title of the active page, or nothing.
pub open spec fn header_title(page: Option<&str>) -> Seq<char> {
    match page {
        Some(page) => page@,
        None => Seq::empty(),
    }
}

impl App {
    /// The state at the start: no device selected, no side page shown.
    pub fn new() -> (app: App)
        ensures
            app.context_page == ContextPage::About,
            !app.show_context,
            app.content.dialog() == content::OpenDialog::Closed,
            app.selected_device is None,
    {
        App {
            context_page: ContextPage::About,
            show_context: false,
            content: Content::new(),
            selected_device: None,
        }
    }

    /// The pages of the navigation bar for the listed devices: for each
    /// device its name and the page of its form, in the order of the list.
    pub fn nav_pages(devices: &Vec<VideoDevice>) -> (pages: Vec<(String, Page)>)
        ensures
            pages@.len() == devices@.len(),
            forall|i: int|
                0 <= i < devices@.len() ==> (#[trigger] pages@[i]).0@ == devices@[i].name@
                    && page_path(pages@[i].1) == devices@[i].path@,
    {
        let mut pages: Vec<(String, Page)> = Vec::new();
        let mut i: usize = 0;
        while i < devices.len()
            invariant
                0 <= i <= devices@.len(),
                pages@.len() == i,
                forall|j: int|
                    0 <= j < i ==> (#[trigger] pages@[j]).0@ == devices@[j].name@ && page_path(
                        pages@[j].1,
                    ) == devices@[j].path@,
            decreases devices@.len() - i,
        {
            pages.push((devices[i].name.clone(), Page::VideoDeviceForm(devices[i].path.clone())));
            i = i + 1;
        }
        pages
    }

    /// Takes the outcome of resolving the device of the active page. The
    /// device becomes the selected one. Where it could not be resolved no
    /// device is selected any more, and the text of the failure is handed
    /// back for the user.
    pub fn set_device_from_nav(&mut self, outcome: Result<VideoDevice, DeviceError>) -> (warning:
        Option<String>)
        ensures
            final(self).context_page == old(self).context_page,
            final(self).show_context == old(self).show_context,
            final(self).content == old(self).content,
            match outcome {
                Ok(device) => final(self).selected_device == Some(device) && warning is None,
                Err(error) => final(self).selected_device is None && warning is Some
                    && warning->0@ == error_text(error.kind, error.detail@),
            },
    {
        match outcome {
            Ok(device) => {
                self.selected_device = Some(device);
                None
            },
            Err(error) => {
                self.selected_device = None;
                Some(error.message())
            },
        }
    }

    /// The titles of the window and of the header for the title of the
    /// application and the title of the active page, if there is one.
    pub fn update_titles(app_title: &str, page: Option<&str>) -> (titles: (String, String))
        ensures
            titles.0@ == window_title(app_title@, page),
            titles.1@ == header_title(page),
    {
        let mut window = app_title.to_owned();
        let mut header = String::new();
        match page {
            Some(page) => {
                window.append(" \u{2014} ");
                window.append(page);
                header.append(page);
                proof {
                    assert(header@ =~= page@);
                }
            },
            None => {},
        }
        (window, header)
    }

    /// Takes a message and says what is to be done.
    ///
    /// A link is handed on to be opened. Asking for the side page that is
    /// shown hides it, and asking for it again or for the other one shows
    /// it. What the user did on the device page goes to that page where a
    /// device is selected, and is dropped where none is. The settings page
    /// asks for nothing.
    pub fn update(&mut self, message: Message) -> (command: Command)
        ensures
            final(self).selected_device == old(self).selected_device,
            match message {
                Message::ToggleContextPage(page) => final(self).context_page == page && final(self).show_context == (if old(self).context_page == page {
                    !old(self).show_context
                } else {
                    true
                }),
                _ => final(self).context_page == old(self).context_page && final(self).show_context == old(self).show_context,
            },
            match message {
                Message::Content(message) => match old(self).selected_device {
                    Some(dev) => command matches Command::Device(task) && content::updated(
                        old(self).content,
                        final(self).content,
                        dev,
                        message,
                        task,
                    ),
                    None => command == Command::Idle && final(self).content == old(self).content,
                },
                Message::LaunchUrl(url) => command == Command::LaunchUrl(url) && final(self).content == old(self).content,
                _ => command == Command::Idle && final(self).content == old(self).content,
            },
    {
        match message {
            Message::LaunchUrl(url) => Command::LaunchUrl(url),
            Message::ToggleContextPage(page) => {
                if self.context_page == page {
                    self.show_context = !self.show_context;
                } else {
                    self.context_page = page;
                    self.show_context = true;
                }
                Command::Idle
            },
            Message::Content(message) => {
                match &self.selected_device {
                    Some(dev) => Command::Device(self.content.update(dev, message)),
                    None => Command::Idle,
                }
            },
            Message::Setting(message) => {
                let _ = self.update_settings(message);
                Command::Idle
            },
        }
    }
}

} // verus!
